use std::collections::HashMap;

use workbench::catalog::generate_registry;
use workbench::envelope::{read_plan_document, CliError, CliOutput};
use workbench::generate::generate_plan;
use workbench::layout::DefaultLayout;
use workbench::merge::{build_failure_report, mutation_effect, MutationOutcome};
use workbench::plan::PlanContract;

/// Drives the plan's mutations against an in-memory file map, the way
/// the command-line front end drives them against the real file system.
fn apply_in_memory(plan: &PlanContract, files: &mut HashMap<String, String>) {
    for m in &plan.mutations {
        match mutation_effect(m, files.get(&m.file_path)) {
            MutationOutcome::Write(content) => {
                files.insert(m.file_path.clone(), content);
            }
            MutationOutcome::Remove => {
                files.remove(&m.file_path);
            }
            MutationOutcome::Keep => {}
            MutationOutcome::MissingTarget => {
                panic!("target missing for {}", m.file_path);
            }
        }
    }
}

#[test]
fn apply_creates_component_files() {
    let index = generate_registry();
    let entry = index.get("dialog").unwrap();
    let layout = DefaultLayout::new("/work");
    let plan = generate_plan(entry, &layout, &Vec::new());

    let mut files: HashMap<String, String> = HashMap::new();
    apply_in_memory(&plan, &mut files);

    assert!(files.contains_key("/work/src/shared/ui/dialog/mod.rs"));
    assert!(files.contains_key("/work/src/shared/ui/dialog/dialog.rs"));
}

#[test]
fn apply_creates_parent_module() {
    let index = generate_registry();
    let entry = index.get("dialog").unwrap();
    let layout = DefaultLayout::new("/work");
    let plan = generate_plan(entry, &layout, &Vec::new());

    let mut files: HashMap<String, String> = HashMap::new();
    apply_in_memory(&plan, &mut files);

    let content = files.get("/work/src/shared/ui/mod.rs").expect("parent module file");
    assert!(
        content.contains("pub mod dialog"),
        "Parent module file should export dialog"
    );
}

#[test]
fn apply_is_idempotent() {
    let index = generate_registry();
    let entry = index.get("dialog").unwrap();
    let layout = DefaultLayout::new("/work");
    let plan = generate_plan(entry, &layout, &Vec::new());

    let mut files: HashMap<String, String> = HashMap::new();
    apply_in_memory(&plan, &mut files);
    let after_first = files.clone();
    apply_in_memory(&plan, &mut files);

    assert_eq!(files, after_first, "Second application must change nothing");

    let content = files.get("/work/src/shared/ui/mod.rs").unwrap();
    let count = content.matches("pub mod dialog").count();
    assert_eq!(count, 1, "Export should appear exactly once (idempotent)");
}

#[test]
fn apply_all_poc_components() {
    let index = generate_registry();
    let mut files: HashMap<String, String> = HashMap::new();

    for name in &["dialog", "select", "tabs"] {
        let entry = index.get(name).unwrap();
        let layout = DefaultLayout::new("/work");
        let plan = generate_plan(entry, &layout, &Vec::new());
        apply_in_memory(&plan, &mut files);
    }

    assert!(files.contains_key("/work/src/shared/ui/dialog/mod.rs"));
    assert!(files.contains_key("/work/src/shared/ui/select/mod.rs"));
    assert!(files.contains_key("/work/src/shared/ui/tabs/mod.rs"));

    let content = files.get("/work/src/shared/ui/mod.rs").unwrap();
    assert!(content.contains("pub mod dialog"));
    assert!(content.contains("pub mod select"));
    assert!(content.contains("pub mod tabs"));
}

#[test]
fn plan_file_roundtrip() {
    let index = generate_registry();
    let entry = index.get("dialog").unwrap();
    let layout = DefaultLayout::new("/work");
    let plan = generate_plan(entry, &layout, &Vec::new());

    let json = plan.to_json();
    let restored = PlanContract::from_json(&json).unwrap();

    assert_eq!(restored.component_name, "Dialog");
    assert_eq!(restored.mutations.len(), plan.mutations.len());
}

#[test]
fn envelope_wrapped_plan_can_be_read_back() {
    let index = generate_registry();
    let entry = index.get("dialog").unwrap();
    let layout = DefaultLayout::new("/work");
    let plan = generate_plan(entry, &layout, &Vec::new());

    let wrapped = CliOutput::success(plan.clone()).to_json();
    let restored = read_plan_document(&wrapped).unwrap();
    assert_eq!(restored.component_name, plan.component_name);
    assert_eq!(restored.mutations.len(), plan.mutations.len());

    let raw = plan.to_json();
    let restored_raw = read_plan_document(&raw).unwrap();
    assert_eq!(restored_raw.component_name, plan.component_name);
}

#[test]
fn malformed_plan_document_is_rejected() {
    assert!(read_plan_document("not json at all").is_err());
    assert!(read_plan_document("{\n  \"operation\": \"add\"").is_err());
    assert!(PlanContract::from_json("").is_err());
}

#[test]
fn failure_report_splits_mutations() {
    let index = generate_registry();
    let entry = index.get("dialog").unwrap();
    let layout = DefaultLayout::new("/work");
    let plan = generate_plan(entry, &layout, &Vec::new());
    let total = plan.mutations.len();

    let report = build_failure_report(plan, 1, "disk full".to_string());
    assert_eq!(report.failed_at_index, 1);
    assert_eq!(report.error, "disk full");
    assert_eq!(report.completed_mutations.len(), 1);
    assert_eq!(report.remaining_mutations.len(), total - 1);
}

#[test]
fn cli_output_success_envelope() {
    let output = CliOutput::success("test data".to_string());
    let json = output.to_json();

    assert!(json.contains("\"success\": true"));
    assert!(json.contains("\"test data\""));
    assert!(json.contains("\"errors\": []"));
}

#[test]
fn cli_output_failure_envelope() {
    let errors = vec![CliError {
        code: "NOT_FOUND".to_string(),
        message: "Component not found".to_string(),
    }];
    let output = CliOutput::failure("error context".to_string(), errors);
    let json = output.to_json();

    assert!(json.contains("\"success\": false"));
    assert!(json.contains("\"NOT_FOUND\""));
    assert!(json.contains("\"Component not found\""));
}

#[test]
fn nonexistent_component_returns_error() {
    let index = generate_registry();
    assert!(index.get("nonexistent").is_none());
}
