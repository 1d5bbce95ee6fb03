use workbench::catalog::generate_registry;
use workbench::checksum::simple_checksum;
use workbench::generate::generate_plan;
use workbench::json::plan_round_trip;
use workbench::registry_codec::registry_round_trip;
use workbench::layout::DefaultLayout;
use workbench::plan::PlanContract;

#[test]
fn checksum_of_empty_text_is_offset_basis() {
    // FNV-1a over zero bytes is the offset basis itself.
    assert_eq!(simple_checksum(""), "cbf29ce484222325");
}

#[test]
fn checksum_of_known_text() {
    // FNV-1a 64-bit of "a": (basis ^ 0x61) * prime mod 2^64.
    assert_eq!(simple_checksum("a"), "af63dc4c8601ec8c");
}

#[test]
fn checksum_is_stable() {
    let one = simple_checksum("pub mod dialog;\n");
    let two = simple_checksum("pub mod dialog;\n");
    assert_eq!(one, two);
    assert_eq!(one.len(), 16);
}

#[test]
fn round_trip_reproduces_every_field() {
    let index = generate_registry();
    let entry = index.get("select").unwrap();
    let layout = DefaultLayout::new("/proj");
    let existing = vec![String::from("/proj/src/shared/ui/select/select.rs")];
    let plan = generate_plan(entry, &layout, &existing);

    let again = plan_round_trip(&plan);
    assert_eq!(again.operation, plan.operation);
    assert_eq!(again.component_name, plan.component_name);
    assert_eq!(again.component_version, plan.component_version);
    assert_eq!(again.target_layout, plan.target_layout);
    assert_eq!(again.mutations.len(), plan.mutations.len());
    for (a, b) in again.mutations.iter().zip(plan.mutations.iter()) {
        assert_eq!(a.action, b.action);
        assert_eq!(a.file_path, b.file_path);
        assert_eq!(a.strategy, b.strategy);
        assert_eq!(a.content, b.content);
        assert_eq!(a.description, b.description);
    }
    assert_eq!(again.conflicts.len(), plan.conflicts.len());
    for (a, b) in again.conflicts.iter().zip(plan.conflicts.iter()) {
        assert_eq!(a.file_path, b.file_path);
        assert_eq!(a.reason, b.reason);
    }
    assert_eq!(again.provenance_actions.len(), plan.provenance_actions.len());
    assert_eq!(again.file_checksums, plan.file_checksums);
}

#[test]
fn escaped_content_survives_round_trip() {
    let index = generate_registry();
    let entry = index.get("tabs").unwrap();
    let layout = DefaultLayout::new("/proj");
    let plan = generate_plan(entry, &layout, &Vec::new());

    // Contents carry newlines, which must be escaped and unescaped.
    assert!(plan.mutations[0].content.contains('\n'));
    let json = plan.to_json();
    assert!(!json.is_empty());
    let restored = PlanContract::from_json(&json).unwrap();
    assert_eq!(restored.mutations[0].content, plan.mutations[0].content);
}

#[test]
fn operation_json_names() {
    let index = generate_registry();
    let entry = index.get("dialog").unwrap();
    let layout = DefaultLayout::new("/proj");
    let plan = generate_plan(entry, &layout, &Vec::new());
    let json = plan.to_json();
    assert!(json.contains("\"operation\": \"add\""));
}

#[test]
fn mutation_strategy_json_names() {
    let index = generate_registry();
    let entry = index.get("dialog").unwrap();
    let layout = DefaultLayout::new("/proj");
    let plan = generate_plan(entry, &layout, &Vec::new());
    let json = plan.to_json();
    assert!(json.contains("\"write_file\""));
    assert!(json.contains("\"append_export\""));
    assert!(json.contains("\"create\""));
    assert!(json.contains("\"modify\""));
}

#[test]
fn registry_round_trip_reproduces_entries() {
    let index = generate_registry();
    let again = registry_round_trip(&index);
    assert_eq!(again.len(), index.len());
    assert_eq!(again.names(), index.names());
    let a = again.get("Dialog").unwrap();
    let b = index.get("Dialog").unwrap();
    assert_eq!(a.version, b.version);
    assert_eq!(a.required_files, b.required_files);
}
