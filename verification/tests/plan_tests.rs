use workbench::catalog::generate_registry;
use workbench::checksum::simple_checksum;
use workbench::contracts::Disposition;
use workbench::generate::generate_plan;
use workbench::registry::RegistryEntry;
use workbench::layout::{DefaultLayout, TemplateAdapter};
use workbench::plan::{ApplyFailureReport, FileAction, MutationStrategy, Operation, PlanContract};

fn default_layout() -> DefaultLayout {
    DefaultLayout::new("/test/project")
}

// -- Plan generation tests --

#[test]
fn generate_plan_for_dialog() {
    let registry = generate_registry();
    let entry = registry.get("Dialog").unwrap();
    let plan = generate_plan(entry, &default_layout(), &Vec::new());

    assert_eq!(plan.operation, Operation::Add);
    assert_eq!(plan.component_name, "Dialog");
    assert_eq!(plan.component_version, "0.1.0");
    assert_eq!(plan.target_layout, "default");
    assert!(!plan.mutations.is_empty());
    assert!(plan.conflicts.is_empty());
    assert!(!plan.provenance_actions.is_empty());
    assert!(!plan.file_checksums.is_empty());
}

#[test]
fn generate_plan_for_select() {
    let registry = generate_registry();
    let entry = registry.get("Select").unwrap();
    let plan = generate_plan(entry, &default_layout(), &Vec::new());

    assert_eq!(plan.component_name, "Select");
    assert!(!plan.mutations.is_empty());
}

#[test]
fn generate_plan_for_tabs() {
    let registry = generate_registry();
    let entry = registry.get("Tabs").unwrap();
    let plan = generate_plan(entry, &default_layout(), &Vec::new());

    assert_eq!(plan.component_name, "Tabs");
    assert!(!plan.mutations.is_empty());
}

#[test]
fn plan_has_create_and_modify_mutations() {
    let registry = generate_registry();
    let entry = registry.get("Dialog").unwrap();
    let plan = generate_plan(entry, &default_layout(), &Vec::new());

    let creates: Vec<_> = plan
        .mutations
        .iter()
        .filter(|m| m.action == FileAction::Create)
        .collect();
    let modifies: Vec<_> = plan
        .mutations
        .iter()
        .filter(|m| m.action == FileAction::Modify)
        .collect();

    assert!(!creates.is_empty(), "Plan should have Create mutations");
    assert!(!modifies.is_empty(), "Plan should have Modify mutations");
}

#[test]
fn plan_targets_correct_directory() {
    let registry = generate_registry();
    let entry = registry.get("Dialog").unwrap();
    let plan = generate_plan(entry, &default_layout(), &Vec::new());

    let create_paths: Vec<_> = plan
        .mutations
        .iter()
        .filter(|m| m.action == FileAction::Create)
        .map(|m| m.file_path.clone())
        .collect();

    for path in &create_paths {
        assert!(
            path.contains("src/shared/ui/dialog"),
            "Create target should be in component directory, got: {}",
            path
        );
    }
}

#[test]
fn plan_includes_module_export() {
    let registry = generate_registry();
    let entry = registry.get("Dialog").unwrap();
    let plan = generate_plan(entry, &default_layout(), &Vec::new());

    let export_mutation = plan
        .mutations
        .iter()
        .find(|m| m.strategy == MutationStrategy::AppendExport);

    assert!(
        export_mutation.is_some(),
        "Plan should include a module export mutation"
    );

    let export = export_mutation.unwrap();
    assert!(export.content.contains("pub mod dialog"));
}

// -- Determinism tests --

#[test]
fn plan_is_deterministic() {
    let registry = generate_registry();
    let entry = registry.get("Dialog").unwrap();
    let layout = default_layout();

    let plan1 = generate_plan(entry, &layout, &Vec::new());
    let plan2 = generate_plan(entry, &layout, &Vec::new());

    let json1 = plan1.to_json();
    let json2 = plan2.to_json();

    assert_eq!(json1, json2, "Identical inputs must produce identical plans");
}

#[test]
fn all_poc_plans_are_deterministic() {
    let registry = generate_registry();
    let layout = default_layout();

    for name in &["Dialog", "Select", "Tabs"] {
        let entry = registry.get(name).unwrap();
        let plan1 = generate_plan(entry, &layout, &Vec::new());
        let plan2 = generate_plan(entry, &layout, &Vec::new());

        let json1 = plan1.to_json();
        let json2 = plan2.to_json();

        assert_eq!(json1, json2, "{} plan is not deterministic", name);
    }
}

// -- Conflict detection tests --

#[test]
fn conflict_detected_for_existing_file() {
    let registry = generate_registry();
    let entry = registry.get("Dialog").unwrap();
    let layout = default_layout();

    let existing = vec![String::from("/test/project/src/shared/ui/dialog/dialog.rs")];

    let plan = generate_plan(entry, &layout, &existing);

    assert!(plan.has_conflicts(), "Should detect conflict with existing file");
    assert_eq!(plan.conflicts.len(), 1);
    assert!(plan.conflicts[0].reason.contains("already exists"));
}

#[test]
fn no_conflicts_with_clean_directory() {
    let registry = generate_registry();
    let entry = registry.get("Dialog").unwrap();
    let plan = generate_plan(entry, &default_layout(), &Vec::new());

    assert!(!plan.has_conflicts());
    assert!(plan.conflicts.is_empty());
}

// -- Scenario: default layout paths for a Dialog plan --

#[test]
fn dialog_plan_uses_default_layout_paths() {
    let registry = generate_registry();
    let entry = registry.get("Dialog").unwrap();
    let layout = DefaultLayout::new("/proj");
    let plan = generate_plan(entry, &layout, &Vec::new());

    let paths: Vec<_> = plan.mutations.iter().map(|m| m.file_path.clone()).collect();
    assert!(paths.contains(&"/proj/src/shared/ui/dialog/mod.rs".to_string()));

    let export = plan
        .mutations
        .iter()
        .find(|m| m.action == FileAction::Modify && m.strategy == MutationStrategy::AppendExport)
        .unwrap();
    assert_eq!(export.file_path, "/proj/src/shared/ui/mod.rs");
    assert_eq!(export.content, "pub mod dialog;");
}

// -- Scenario: a pre-existing module file is reported exactly once --

#[test]
fn preexisting_component_mod_yields_one_conflict() {
    let registry = generate_registry();
    let entry = registry.get("Dialog").unwrap();
    let layout = DefaultLayout::new("/proj");
    let existing = vec![String::from("/proj/src/shared/ui/dialog/mod.rs")];
    let plan = generate_plan(entry, &layout, &existing);

    assert_eq!(plan.conflicts.len(), 1);
    assert_eq!(plan.conflicts[0].file_path, "/proj/src/shared/ui/dialog/mod.rs");
}

// -- JSON serialization tests --

#[test]
fn plan_json_roundtrip() {
    let registry = generate_registry();
    let entry = registry.get("Dialog").unwrap();
    let plan = generate_plan(entry, &default_layout(), &Vec::new());

    let json = plan.to_json();
    let restored = PlanContract::from_json(&json).unwrap();

    assert_eq!(restored.operation, plan.operation);
    assert_eq!(restored.component_name, plan.component_name);
    assert_eq!(restored.component_version, plan.component_version);
    assert_eq!(restored.mutations.len(), plan.mutations.len());
    assert_eq!(restored.conflicts.len(), plan.conflicts.len());
    assert_eq!(restored.provenance_actions.len(), plan.provenance_actions.len());
    assert_eq!(restored.file_checksums.len(), plan.file_checksums.len());
    assert_eq!(restored.target_layout, plan.target_layout);
}

#[test]
fn plan_json_contains_agent_readable_fields() {
    let registry = generate_registry();
    let entry = registry.get("Dialog").unwrap();
    let plan = generate_plan(entry, &default_layout(), &Vec::new());
    let json = plan.to_json();

    assert!(json.contains("\"operation\""));
    assert!(json.contains("\"component_name\""));
    assert!(json.contains("\"mutations\""));
    assert!(json.contains("\"file_path\""));
    assert!(json.contains("\"action\""));
    assert!(json.contains("\"strategy\""));
    assert!(json.contains("\"content\""));
    assert!(json.contains("\"file_checksums\""));
}

// -- File checksum tests --

#[test]
fn plan_includes_checksums_for_created_files() {
    let registry = generate_registry();
    let entry = registry.get("Dialog").unwrap();
    let plan = generate_plan(entry, &default_layout(), &Vec::new());

    assert!(
        !plan.file_checksums.is_empty(),
        "Plan should include file checksums"
    );

    for mutation in &plan.mutations {
        if mutation.action == FileAction::Create {
            assert!(
                plan.checksum_for(&mutation.file_path).is_some(),
                "Missing checksum for created file: {:?}",
                mutation.file_path
            );
        }
    }
}

#[test]
fn checksums_are_deterministic() {
    let registry = generate_registry();
    let entry = registry.get("Dialog").unwrap();
    let layout = default_layout();

    let plan1 = generate_plan(entry, &layout, &Vec::new());
    let plan2 = generate_plan(entry, &layout, &Vec::new());

    let sums1: Vec<_> = plan1.file_checksums.iter().collect();
    let sums2: Vec<_> = plan2.file_checksums.iter().collect();
    assert_eq!(sums1, sums2);
}

// -- Provenance tests --

#[test]
fn plan_has_provenance_for_all_source_files() {
    let registry = generate_registry();
    let entry = registry.get("Dialog").unwrap();
    let plan = generate_plan(entry, &default_layout(), &Vec::new());

    assert_eq!(
        plan.provenance_actions.len(),
        entry.required_files.len(),
        "Should have provenance for each required file"
    );

    for pa in &plan.provenance_actions {
        assert!(!pa.source.is_empty());
        assert!(!pa.license.is_empty());
        assert!(!pa.modifications.is_empty());
    }
}

// -- Performance test --

#[test]
fn plan_generation_is_fast() {
    let registry = generate_registry();
    let entry = registry.get("Dialog").unwrap();
    let layout = default_layout();

    let start = std::time::Instant::now();
    for _ in 0..100 {
        let _ = generate_plan(entry, &layout, &Vec::new());
    }
    let elapsed = start.elapsed();

    assert!(
        elapsed.as_millis() < 1000,
        "100 plan generations took {:?}, should be sub-second",
        elapsed
    );
}

// -- ApplyFailureReport tests --

#[test]
fn failure_report_serializes() {
    let registry = generate_registry();
    let entry = registry.get("Dialog").unwrap();
    let plan = generate_plan(entry, &default_layout(), &Vec::new());

    let report = ApplyFailureReport {
        plan: plan.clone(),
        failed_at_index: 1,
        error: "Permission denied".to_string(),
        completed_mutations: vec![plan.mutations[0].clone()],
        remaining_mutations: plan.mutations[1..].to_vec(),
    };

    let json = report.to_json();
    assert!(json.contains("Permission denied"));
    assert!(json.contains("\"failed_at_index\": 1"));
}

// -- DefaultLayout tests --

#[test]
fn default_layout_paths() {
    let layout = DefaultLayout::new("/myapp");

    assert_eq!(layout.name(), "default");
    assert_eq!(
        layout.component_dir("Dialog"),
        "/myapp/src/shared/ui/dialog"
    );
    assert_eq!(layout.module_file(), "/myapp/src/shared/ui/mod.rs");
    assert_eq!(layout.export_line("Dialog"), "pub mod dialog;");
    assert_eq!(
        layout.theme_tokens_file(),
        "/myapp/src/shared/theme/tokens.rs"
    );
}

#[test]
fn duplicate_basenames_record_one_checksum_per_path() {
    // Two required files share the basename, so they install to the same
    // target path; the checksum map must keep one entry for that path,
    // recording the content of the later creation.
    let entry = RegistryEntry {
        name: "Widget".to_string(),
        version: "0.1.0".to_string(),
        disposition: Disposition::Rewrite,
        variants: Vec::new(),
        states: Vec::new(),
        props: Vec::new(),
        token_dependencies: Vec::new(),
        required_files: vec![
            "crates/a/widget.rs".to_string(),
            "crates/b/widget.rs".to_string(),
        ],
    };
    let layout = DefaultLayout::new("/proj");
    let plan = generate_plan(&entry, &layout, &Vec::new());

    let target = "/proj/src/shared/ui/widget/widget.rs";
    let recorded: Vec<_> = plan
        .file_checksums
        .iter()
        .filter(|(k, _)| k == target)
        .collect();
    assert_eq!(recorded.len(), 1, "one checksum entry per path");

    // The second creation wins, matching the apply semantics where the
    // later write overwrites the earlier one.
    let last_content = &plan
        .mutations
        .iter()
        .filter(|m| m.file_path == target)
        .last()
        .unwrap()
        .content;
    assert_eq!(
        plan.checksum_for(target).unwrap(),
        &simple_checksum(last_content)
    );
}
