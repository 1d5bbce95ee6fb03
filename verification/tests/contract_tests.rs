use workbench::contracts::{
    AcceptanceChecklist, ComponentContract, ComponentState, Disposition, InteractionChecklist,
    PropDef, SharedIdentifiers,
};

fn required_prop(name: &str, ty: &str, description: &str) -> PropDef {
    PropDef {
        name: name.to_string(),
        prop_type: ty.to_string(),
        required: true,
        default_value: None,
        description: description.to_string(),
    }
}

fn optional_prop(name: &str, ty: &str, default: &str, description: &str) -> PropDef {
    PropDef {
        name: name.to_string(),
        prop_type: ty.to_string(),
        required: false,
        default_value: Some(default.to_string()),
        description: description.to_string(),
    }
}

fn bare_contract(name: &str, version: &str) -> ComponentContract {
    ComponentContract {
        name: name.to_string(),
        version: version.to_string(),
        disposition: Disposition::Rewrite,
        props: Vec::new(),
        variants: Vec::new(),
        states: Vec::new(),
        token_dependencies: Vec::new(),
        interaction_checklist: InteractionChecklist::new(),
        acceptance_checklist: AcceptanceChecklist::new(),
        required_files: Vec::new(),
        shared_identifiers: SharedIdentifiers::new(),
    }
}

fn sample_contract() -> ComponentContract {
    let mut c = bare_contract("Button", "0.1.0");
    c.props.push(required_prop("label", "SharedString", "Button label text"));
    c.props.push(optional_prop("disabled", "bool", "false", "Whether the button is disabled"));
    c.variants.push("primary".to_string());
    c.variants.push("secondary".to_string());
    c.variants.push("ghost".to_string());
    c.states.push(ComponentState::Hover);
    c.states.push(ComponentState::Active);
    c.states.push(ComponentState::Focused);
    c.states.push(ComponentState::Disabled);
    c.interaction_checklist.focus_behavior =
        Some("Receives focus via Tab key; shows focus ring".to_string());
    c.interaction_checklist.keyboard_model = Some("Enter/Space activates the button".to_string());
    c.interaction_checklist.pointer_behavior =
        Some("Click activates; hover shows highlight".to_string());
    c.interaction_checklist.state_model = Some("Uncontrolled; fires on_click callback".to_string());
    c.interaction_checklist.disabled_behavior =
        Some("Ignores pointer and keyboard events; reduced opacity".to_string());
    c
}

#[test]
fn test_all_states_represented() {
    let all = ComponentState::all();
    assert_eq!(all.len(), 8);
    assert!(all.contains(&ComponentState::Hover));
    assert!(all.contains(&ComponentState::Active));
    assert!(all.contains(&ComponentState::Focused));
    assert!(all.contains(&ComponentState::Disabled));
    assert!(all.contains(&ComponentState::Error));
    assert!(all.contains(&ComponentState::Open));
    assert!(all.contains(&ComponentState::Selected));
    assert!(all.contains(&ComponentState::Readonly));
}

#[test]
fn test_acceptance_checklist_default_all_false() {
    let checklist = AcceptanceChecklist::new();
    assert!(!checklist.has_focus_behavior);
    assert!(!checklist.has_keyboard_model);
    assert!(!checklist.has_pointer_behavior);
    assert!(!checklist.has_state_model);
    assert!(!checklist.has_disabled_semantics);
    assert!(!checklist.surfaces_mapped_to_tokens);
    assert!(!checklist.no_hardcoded_colors);
    assert!(!checklist.has_release_mode_evidence);
    assert!(!checklist.no_unapproved_regressions);
    assert!(!checklist.bounded_rendering_verified);
    assert!(!checklist.has_story_coverage);
    assert!(!checklist.has_interaction_tests);
    assert!(!checklist.has_provenance_metadata);
}

#[test]
fn test_validation_passes_for_valid_contract() {
    let contract = sample_contract();
    let errors = contract.validate();
    assert!(errors.is_empty(), "Expected no errors, got: {:?}", errors);
}

#[test]
fn test_validation_empty_name() {
    let mut contract = bare_contract("", "0.1.0");
    contract.props.push(required_prop("x", "u32", "a prop"));
    contract.states.push(ComponentState::Active);
    let errors = contract.validate();
    assert!(errors.iter().any(|e| e.field == "name"));
}

#[test]
fn test_validation_empty_version() {
    let mut contract = bare_contract("Foo", "");
    contract.props.push(required_prop("x", "u32", "a prop"));
    contract.states.push(ComponentState::Active);
    let errors = contract.validate();
    assert!(errors.iter().any(|e| e.field == "version"));
}

#[test]
fn test_validation_no_props() {
    let mut contract = bare_contract("Foo", "0.1.0");
    contract.states.push(ComponentState::Active);
    let errors = contract.validate();
    assert!(errors.iter().any(|e| e.field == "props"));
}

#[test]
fn test_validation_no_states() {
    let mut contract = bare_contract("Foo", "0.1.0");
    contract.props.push(required_prop("x", "u32", "a prop"));
    let errors = contract.validate();
    assert!(errors.iter().any(|e| e.field == "states"));
}

#[test]
fn test_validation_required_prop_with_default() {
    let mut contract = bare_contract("Foo", "0.1.0");
    contract.props.push(PropDef {
        name: "bar".to_string(),
        prop_type: "u32".to_string(),
        required: true,
        default_value: Some("42".to_string()),
        description: "bad prop".to_string(),
    });
    contract.states.push(ComponentState::Active);
    let errors = contract.validate();
    assert!(errors.iter().any(|e| e.field == "props[0].default_value"));
}

#[test]
fn test_validation_disabled_without_behavior() {
    let mut contract = bare_contract("Foo", "0.1.0");
    contract.props.push(required_prop("x", "u32", "a prop"));
    contract.states.push(ComponentState::Disabled);
    let errors = contract.validate();
    assert!(errors
        .iter()
        .any(|e| e.field == "interaction_checklist.disabled_behavior"));
}

#[test]
fn test_validation_readonly_without_behavior() {
    let mut contract = bare_contract("Foo", "0.1.0");
    contract.props.push(required_prop("x", "u32", "a prop"));
    contract.states.push(ComponentState::Readonly);
    let errors = contract.validate();
    assert!(errors
        .iter()
        .any(|e| e.field == "interaction_checklist.readonly_behavior"));
}

#[test]
fn test_validation_focused_without_behavior() {
    let mut contract = bare_contract("Foo", "0.1.0");
    contract.props.push(required_prop("x", "u32", "a prop"));
    contract.states.push(ComponentState::Focused);
    let errors = contract.validate();
    assert!(errors
        .iter()
        .any(|e| e.field == "interaction_checklist.focus_behavior"));
}

#[test]
fn test_validation_hover_without_pointer() {
    let mut contract = bare_contract("Foo", "0.1.0");
    contract.props.push(required_prop("x", "u32", "a prop"));
    contract.states.push(ComponentState::Hover);
    let errors = contract.validate();
    assert!(errors
        .iter()
        .any(|e| e.field == "interaction_checklist.pointer_behavior"));
}

#[test]
fn validation_reports_all_violations_in_order() {
    let contract = bare_contract("", "");
    let errors = contract.validate();
    assert_eq!(errors.len(), 4);
    assert_eq!(errors[0].field, "name");
    assert_eq!(errors[1].field, "version");
    assert_eq!(errors[2].field, "props");
    assert_eq!(errors[3].field, "states");
    assert_eq!(errors[0].to_string(), "name: Component name must not be empty");
}
