//! The built-in component catalog: the metadata contracts of the
//! installable components, and the registry built from them. Each
//! constructor is pinned to a spec-level model of its contract, so the
//! registry build is provably the registration of exactly these three
//! components.

use vstd::prelude::*;

use crate::contracts::{
    AcceptanceChecklist, ChecklistModel, ComponentContract, ComponentState, ContractModel,
    Disposition, InteractionChecklist, PropDef, PropModel, SharedIdentifiers,
    SharedIdentifiersModel, TokenRef, TokenRefModel, ValidationError, spec_validate,
};
use crate::registry::{spec_entry_of, spec_fold_entries, EntryModel, RegistryIndex};

verus! {

/// An acceptance checklist with every box unticked, as a model.
pub open spec fn unticked_checklist() -> AcceptanceChecklist {
    AcceptanceChecklist {
        has_focus_behavior: false,
        has_keyboard_model: false,
        has_pointer_behavior: false,
        has_state_model: false,
        has_disabled_semantics: false,
        surfaces_mapped_to_tokens: false,
        no_hardcoded_colors: false,
        has_release_mode_evidence: false,
        no_unapproved_regressions: false,
        bounded_rendering_verified: false,
        has_story_coverage: false,
        has_interaction_tests: false,
        has_provenance_metadata: false,
    }
}

/// A required prop definition.
fn req_prop(name: &str, ty: &str, description: &str) -> (r: PropDef)
    ensures
        r.deep_view() == (PropModel {
            name: name@,
            prop_type: ty@,
            required: true,
            default_value: None,
            description: description@,
        }),
{
    PropDef {
        name: name.to_owned(),
        prop_type: ty.to_owned(),
        required: true,
        default_value: None,
        description: description.to_owned(),
    }
}

/// An optional prop definition with a default value.
fn opt_prop(name: &str, ty: &str, default: &str, description: &str) -> (r: PropDef)
    ensures
        r.deep_view() == (PropModel {
            name: name@,
            prop_type: ty@,
            required: false,
            default_value: Some(default@),
            description: description@,
        }),
{
    PropDef {
        name: name.to_owned(),
        prop_type: ty.to_owned(),
        required: false,
        default_value: Some(default.to_owned()),
        description: description.to_owned(),
    }
}

/// A token dependency.
fn tok(path: &str, usage: &str) -> (r: TokenRef)
    ensures
        r.deep_view() == (TokenRefModel { path: path@, usage: usage@ }),
{
    TokenRef { path: path.to_owned(), usage: usage.to_owned() }
}

/// The dialog component's contract, as a model.
pub open spec fn dialog_contract_model() -> ContractModel {
    ContractModel {
        name: "Dialog"@,
        version: "0.1.0"@,
        disposition: Disposition::Fork,
        props: seq![
            PropModel {
                name: "id"@,
                prop_type: "ElementId"@,
                required: true,
                default_value: None,
                description: "Unique identifier for the dialog instance"@,
            },
            PropModel {
                name: "title"@,
                prop_type: "Option<SharedString>"@,
                required: false,
                default_value: Some("None"@),
                description: "Dialog title text"@,
            },
            PropModel {
                name: "description"@,
                prop_type: "Option<SharedString>"@,
                required: false,
                default_value: Some("None"@),
                description: "Dialog description text"@,
            },
            PropModel {
                name: "width"@,
                prop_type: "Pixels"@,
                required: false,
                default_value: Some("480.0"@),
                description: "Dialog width in pixels"@,
            },
            PropModel {
                name: "overlay_closable"@,
                prop_type: "bool"@,
                required: false,
                default_value: Some("true"@),
                description: "Whether clicking backdrop closes the dialog"@,
            },
            PropModel {
                name: "show_close_button"@,
                prop_type: "bool"@,
                required: false,
                default_value: Some("true"@),
                description: "Whether to show the X close button"@,
            },
            PropModel {
                name: "tooltip"@,
                prop_type: "Option<SharedString>"@,
                required: false,
                default_value: Some("None"@),
                description: "Tooltip text"@,
            },
        ],
        variants: Seq::empty(),
        states: seq![
            ComponentState::Open,
            ComponentState::Focused,
            ComponentState::Hover,
            ComponentState::Active,
        ],
        token_dependencies: seq![
            TokenRefModel { path: "surface.elevated_surface"@, usage: "Dialog panel background"@ },
            TokenRefModel { path: "border.default"@, usage: "Dialog panel border"@ },
            TokenRefModel { path: "text.default"@, usage: "Dialog title and body text"@ },
            TokenRefModel { path: "text.muted"@, usage: "Dialog description text"@ },
            TokenRefModel { path: "surface.background"@, usage: "Overlay backdrop (with alpha)"@ },
            TokenRefModel { path: "ghost_element.hover"@, usage: "Close button hover state"@ },
        ],
        interaction_checklist: ChecklistModel {
            focus_behavior: Some("Focus trap: Tab/Shift-Tab cycle within dialog. Focus captured on open, returned to trigger on close."@),
            keyboard_model: Some("Escape dismisses the dialog. Enter is not bound by default (action buttons handle their own activation)."@),
            pointer_behavior: Some("Click on backdrop dismisses (if overlay_closable). Click on close button dismisses. Mouse events on dialog panel stop propagation to backdrop."@),
            state_model: Some("Controlled open/close via OpenState. Dialog is created in Open state; closing returns focus."@),
            disabled_behavior: None,
            readonly_behavior: None,
        },
        acceptance_checklist: unticked_checklist(),
        required_files: seq![
            "crates/components/src/dialog.rs"@,
        ],
        shared_identifiers: SharedIdentifiersModel {
            id: None,
            tooltip: None,
            metadata: Seq::empty(),
        },
    }
}

/// The dialog component's contract.
#[verifier::rlimit(100)]
#[verifier::spinoff_prover]
pub fn dialog_contract() -> (c: ComponentContract)
    ensures
        c.deep_view() == dialog_contract_model(),
{
    let mut props: Vec<PropDef> = Vec::new();
    props.push(req_prop("id", "ElementId", "Unique identifier for the dialog instance"));
    props.push(opt_prop("title", "Option<SharedString>", "None", "Dialog title text"));
    props.push(opt_prop("description", "Option<SharedString>", "None", "Dialog description text"));
    props.push(opt_prop("width", "Pixels", "480.0", "Dialog width in pixels"));
    props.push(opt_prop("overlay_closable", "bool", "true", "Whether clicking backdrop closes the dialog"));
    props.push(opt_prop("show_close_button", "bool", "true", "Whether to show the X close button"));
    props.push(opt_prop("tooltip", "Option<SharedString>", "None", "Tooltip text"));

    let mut states: Vec<ComponentState> = Vec::new();
    states.push(ComponentState::Open);
    states.push(ComponentState::Focused);
    states.push(ComponentState::Hover);
    states.push(ComponentState::Active);

    let mut token_dependencies: Vec<TokenRef> = Vec::new();
    token_dependencies.push(tok("surface.elevated_surface", "Dialog panel background"));
    token_dependencies.push(tok("border.default", "Dialog panel border"));
    token_dependencies.push(tok("text.default", "Dialog title and body text"));
    token_dependencies.push(tok("text.muted", "Dialog description text"));
    token_dependencies.push(tok("surface.background", "Overlay backdrop (with alpha)"));
    token_dependencies.push(tok("ghost_element.hover", "Close button hover state"));

    let mut required_files: Vec<String> = Vec::new();
    required_files.push(String::from_str("crates/components/src/dialog.rs"));

    let mut ic = InteractionChecklist::new();
    ic.focus_behavior = Some(String::from_str("Focus trap: Tab/Shift-Tab cycle within dialog. Focus captured on open, returned to trigger on close."));
    ic.keyboard_model = Some(String::from_str("Escape dismisses the dialog. Enter is not bound by default (action buttons handle their own activation)."));
    ic.pointer_behavior = Some(String::from_str("Click on backdrop dismisses (if overlay_closable). Click on close button dismisses. Mouse events on dialog panel stop propagation to backdrop."));
    ic.state_model = Some(String::from_str("Controlled open/close via OpenState. Dialog is created in Open state; closing returns focus."));

    let c = ComponentContract {
        name: String::from_str("Dialog"),
        version: String::from_str("0.1.0"),
        disposition: Disposition::Fork,
        props,
        variants: Vec::new(),
        states,
        token_dependencies,
        interaction_checklist: ic,
        acceptance_checklist: AcceptanceChecklist::new(),
        required_files,
        shared_identifiers: SharedIdentifiers::new(),
    };
    proof {
        assert(c.deep_view().props =~= dialog_contract_model().props);
        assert(c.deep_view().variants =~= dialog_contract_model().variants);
        assert(c.deep_view().states =~= dialog_contract_model().states);
        assert(c.deep_view().token_dependencies =~= dialog_contract_model().token_dependencies);
        assert(c.deep_view().required_files =~= dialog_contract_model().required_files);
        assert(c.deep_view().shared_identifiers.metadata =~= dialog_contract_model().shared_identifiers.metadata);
        assert(c.deep_view() =~= dialog_contract_model());
    }
    c
}

/// The select component's contract, as a model.
pub open spec fn select_contract_model() -> ContractModel {
    ContractModel {
        name: "Select"@,
        version: "0.1.0"@,
        disposition: Disposition::Fork,
        props: seq![
            PropModel {
                name: "id"@,
                prop_type: "ElementId"@,
                required: true,
                default_value: None,
                description: "Unique identifier for the select instance"@,
            },
            PropModel {
                name: "items"@,
                prop_type: "Vec<SelectItem>"@,
                required: true,
                default_value: None,
                description: "List of selectable items"@,
            },
            PropModel {
                name: "selected_index"@,
                prop_type: "Option<usize>"@,
                required: false,
                default_value: Some("None"@),
                description: "Currently selected item index"@,
            },
            PropModel {
                name: "placeholder"@,
                prop_type: "SharedString"@,
                required: false,
                default_value: Some("Select..."@),
                description: "Text shown when no item is selected"@,
            },
            PropModel {
                name: "disabled"@,
                prop_type: "bool"@,
                required: false,
                default_value: Some("false"@),
                description: "Whether the select is disabled"@,
            },
            PropModel {
                name: "width"@,
                prop_type: "Pixels"@,
                required: false,
                default_value: Some("200.0"@),
                description: "Select trigger width"@,
            },
            PropModel {
                name: "tooltip"@,
                prop_type: "Option<SharedString>"@,
                required: false,
                default_value: Some("None"@),
                description: "Tooltip text"@,
            },
        ],
        variants: Seq::empty(),
        states: seq![
            ComponentState::Open,
            ComponentState::Focused,
            ComponentState::Hover,
            ComponentState::Active,
            ComponentState::Selected,
            ComponentState::Disabled,
        ],
        token_dependencies: seq![
            TokenRefModel { path: "element.background"@, usage: "Trigger button background"@ },
            TokenRefModel { path: "element.hover"@, usage: "Trigger button hover background"@ },
            TokenRefModel { path: "border.default"@, usage: "Trigger and popover border"@ },
            TokenRefModel { path: "text.default"@, usage: "Selected item text"@ },
            TokenRefModel { path: "text.placeholder"@, usage: "Placeholder text"@ },
            TokenRefModel { path: "text.disabled"@, usage: "Disabled item text"@ },
            TokenRefModel { path: "surface.elevated_surface"@, usage: "Popover dropdown background"@ },
            TokenRefModel { path: "ghost_element.hover"@, usage: "Dropdown item hover background"@ },
            TokenRefModel { path: "ghost_element.selected"@, usage: "Selected dropdown item background"@ },
        ],
        interaction_checklist: ChecklistModel {
            focus_behavior: Some("Trigger receives focus via Tab. Arrow keys navigate items. Focus returns to trigger on close."@),
            keyboard_model: Some("Enter/Space opens dropdown and selects highlighted item. Up/Down arrows navigate through items (wrapping). Escape closes dropdown. Home/End jump to first/last."@),
            pointer_behavior: Some("Click on trigger toggles dropdown. Click on item selects it. Click outside dismisses dropdown."@),
            state_model: Some("Supports controlled (selected_index) and uncontrolled mode. OpenState tracks popover visibility. on_change fires when selection changes."@),
            disabled_behavior: Some("Disabled state blocks all interaction, shows reduced-opacity text, prevents dropdown from opening."@),
            readonly_behavior: None,
        },
        acceptance_checklist: unticked_checklist(),
        required_files: seq![
            "crates/components/src/select.rs"@,
        ],
        shared_identifiers: SharedIdentifiersModel {
            id: None,
            tooltip: None,
            metadata: Seq::empty(),
        },
    }
}

/// The select component's contract.
#[verifier::rlimit(100)]
#[verifier::spinoff_prover]
pub fn select_contract() -> (c: ComponentContract)
    ensures
        c.deep_view() == select_contract_model(),
{
    let mut props: Vec<PropDef> = Vec::new();
    props.push(req_prop("id", "ElementId", "Unique identifier for the select instance"));
    props.push(req_prop("items", "Vec<SelectItem>", "List of selectable items"));
    props.push(opt_prop("selected_index", "Option<usize>", "None", "Currently selected item index"));
    props.push(opt_prop("placeholder", "SharedString", "Select...", "Text shown when no item is selected"));
    props.push(opt_prop("disabled", "bool", "false", "Whether the select is disabled"));
    props.push(opt_prop("width", "Pixels", "200.0", "Select trigger width"));
    props.push(opt_prop("tooltip", "Option<SharedString>", "None", "Tooltip text"));

    let mut states: Vec<ComponentState> = Vec::new();
    states.push(ComponentState::Open);
    states.push(ComponentState::Focused);
    states.push(ComponentState::Hover);
    states.push(ComponentState::Active);
    states.push(ComponentState::Selected);
    states.push(ComponentState::Disabled);

    let mut token_dependencies: Vec<TokenRef> = Vec::new();
    token_dependencies.push(tok("element.background", "Trigger button background"));
    token_dependencies.push(tok("element.hover", "Trigger button hover background"));
    token_dependencies.push(tok("border.default", "Trigger and popover border"));
    token_dependencies.push(tok("text.default", "Selected item text"));
    token_dependencies.push(tok("text.placeholder", "Placeholder text"));
    token_dependencies.push(tok("text.disabled", "Disabled item text"));
    token_dependencies.push(tok("surface.elevated_surface", "Popover dropdown background"));
    token_dependencies.push(tok("ghost_element.hover", "Dropdown item hover background"));
    token_dependencies.push(tok("ghost_element.selected", "Selected dropdown item background"));

    let mut required_files: Vec<String> = Vec::new();
    required_files.push(String::from_str("crates/components/src/select.rs"));

    let mut ic = InteractionChecklist::new();
    ic.focus_behavior = Some(String::from_str("Trigger receives focus via Tab. Arrow keys navigate items. Focus returns to trigger on close."));
    ic.keyboard_model = Some(String::from_str("Enter/Space opens dropdown and selects highlighted item. Up/Down arrows navigate through items (wrapping). Escape closes dropdown. Home/End jump to first/last."));
    ic.pointer_behavior = Some(String::from_str("Click on trigger toggles dropdown. Click on item selects it. Click outside dismisses dropdown."));
    ic.state_model = Some(String::from_str("Supports controlled (selected_index) and uncontrolled mode. OpenState tracks popover visibility. on_change fires when selection changes."));
    ic.disabled_behavior = Some(String::from_str("Disabled state blocks all interaction, shows reduced-opacity text, prevents dropdown from opening."));

    let c = ComponentContract {
        name: String::from_str("Select"),
        version: String::from_str("0.1.0"),
        disposition: Disposition::Fork,
        props,
        variants: Vec::new(),
        states,
        token_dependencies,
        interaction_checklist: ic,
        acceptance_checklist: AcceptanceChecklist::new(),
        required_files,
        shared_identifiers: SharedIdentifiers::new(),
    };
    proof {
        assert(c.deep_view().props =~= select_contract_model().props);
        assert(c.deep_view().variants =~= select_contract_model().variants);
        assert(c.deep_view().states =~= select_contract_model().states);
        assert(c.deep_view().token_dependencies =~= select_contract_model().token_dependencies);
        assert(c.deep_view().required_files =~= select_contract_model().required_files);
        assert(c.deep_view().shared_identifiers.metadata =~= select_contract_model().shared_identifiers.metadata);
        assert(c.deep_view() =~= select_contract_model());
    }
    c
}

/// The tabs component's contract, as a model.
pub open spec fn tabs_contract_model() -> ContractModel {
    ContractModel {
        name: "Tabs"@,
        version: "0.1.0"@,
        disposition: Disposition::Fork,
        props: seq![
            PropModel {
                name: "id"@,
                prop_type: "ElementId"@,
                required: true,
                default_value: None,
                description: "Unique identifier for the tabs instance"@,
            },
            PropModel {
                name: "tabs"@,
                prop_type: "Vec<TabItem>"@,
                required: true,
                default_value: None,
                description: "List of tab definitions"@,
            },
            PropModel {
                name: "active_index"@,
                prop_type: "usize"@,
                required: false,
                default_value: Some("0"@),
                description: "Index of the currently active tab"@,
            },
            PropModel {
                name: "tooltip"@,
                prop_type: "Option<SharedString>"@,
                required: false,
                default_value: Some("None"@),
                description: "Tooltip text"@,
            },
        ],
        variants: Seq::empty(),
        states: seq![
            ComponentState::Focused,
            ComponentState::Hover,
            ComponentState::Active,
            ComponentState::Selected,
            ComponentState::Disabled,
        ],
        token_dependencies: seq![
            TokenRefModel { path: "tab.bar_background"@, usage: "Tab bar background color"@ },
            TokenRefModel { path: "tab.active_background"@, usage: "Active tab background color"@ },
            TokenRefModel { path: "tab.inactive_background"@, usage: "Inactive tab background color"@ },
            TokenRefModel { path: "border.default"@, usage: "Tab bar bottom border"@ },
            TokenRefModel { path: "border.selected"@, usage: "Active tab indicator"@ },
            TokenRefModel { path: "text.default"@, usage: "Active tab text color"@ },
            TokenRefModel { path: "text.muted"@, usage: "Inactive tab text color"@ },
            TokenRefModel { path: "text.disabled"@, usage: "Disabled tab text color"@ },
            TokenRefModel { path: "ghost_element.hover"@, usage: "Tab hover background"@ },
        ],
        interaction_checklist: ChecklistModel {
            focus_behavior: Some("Tab bar receives focus via Tab key. Left/Right arrows navigate between tabs. Tab/Shift-Tab moves focus out of the tab bar."@),
            keyboard_model: Some("Left/Right arrows move between tabs (wrapping). Home/End jump to first/last tab. Enter/Space activates the focused tab. Disabled tabs are skipped during navigation."@),
            pointer_behavior: Some("Click on a tab activates it. Hover shows highlight. Disabled tabs do not respond to click."@),
            state_model: Some("Supports controlled (active_index) and uncontrolled mode. on_change fires when active tab changes. Each tab has its own disabled state."@),
            disabled_behavior: Some("Disabled tabs are visually dimmed, skip during keyboard navigation, and do not respond to click events."@),
            readonly_behavior: None,
        },
        acceptance_checklist: unticked_checklist(),
        required_files: seq![
            "crates/components/src/tabs.rs"@,
        ],
        shared_identifiers: SharedIdentifiersModel {
            id: None,
            tooltip: None,
            metadata: Seq::empty(),
        },
    }
}

/// The tabs component's contract.
#[verifier::rlimit(100)]
#[verifier::spinoff_prover]
pub fn tabs_contract() -> (c: ComponentContract)
    ensures
        c.deep_view() == tabs_contract_model(),
{
    let mut props: Vec<PropDef> = Vec::new();
    props.push(req_prop("id", "ElementId", "Unique identifier for the tabs instance"));
    props.push(req_prop("tabs", "Vec<TabItem>", "List of tab definitions"));
    props.push(opt_prop("active_index", "usize", "0", "Index of the currently active tab"));
    props.push(opt_prop("tooltip", "Option<SharedString>", "None", "Tooltip text"));

    let mut states: Vec<ComponentState> = Vec::new();
    states.push(ComponentState::Focused);
    states.push(ComponentState::Hover);
    states.push(ComponentState::Active);
    states.push(ComponentState::Selected);
    states.push(ComponentState::Disabled);

    let mut token_dependencies: Vec<TokenRef> = Vec::new();
    token_dependencies.push(tok("tab.bar_background", "Tab bar background color"));
    token_dependencies.push(tok("tab.active_background", "Active tab background color"));
    token_dependencies.push(tok("tab.inactive_background", "Inactive tab background color"));
    token_dependencies.push(tok("border.default", "Tab bar bottom border"));
    token_dependencies.push(tok("border.selected", "Active tab indicator"));
    token_dependencies.push(tok("text.default", "Active tab text color"));
    token_dependencies.push(tok("text.muted", "Inactive tab text color"));
    token_dependencies.push(tok("text.disabled", "Disabled tab text color"));
    token_dependencies.push(tok("ghost_element.hover", "Tab hover background"));

    let mut required_files: Vec<String> = Vec::new();
    required_files.push(String::from_str("crates/components/src/tabs.rs"));

    let mut ic = InteractionChecklist::new();
    ic.focus_behavior = Some(String::from_str("Tab bar receives focus via Tab key. Left/Right arrows navigate between tabs. Tab/Shift-Tab moves focus out of the tab bar."));
    ic.keyboard_model = Some(String::from_str("Left/Right arrows move between tabs (wrapping). Home/End jump to first/last tab. Enter/Space activates the focused tab. Disabled tabs are skipped during navigation."));
    ic.pointer_behavior = Some(String::from_str("Click on a tab activates it. Hover shows highlight. Disabled tabs do not respond to click."));
    ic.state_model = Some(String::from_str("Supports controlled (active_index) and uncontrolled mode. on_change fires when active tab changes. Each tab has its own disabled state."));
    ic.disabled_behavior = Some(String::from_str("Disabled tabs are visually dimmed, skip during keyboard navigation, and do not respond to click events."));

    let c = ComponentContract {
        name: String::from_str("Tabs"),
        version: String::from_str("0.1.0"),
        disposition: Disposition::Fork,
        props,
        variants: Vec::new(),
        states,
        token_dependencies,
        interaction_checklist: ic,
        acceptance_checklist: AcceptanceChecklist::new(),
        required_files,
        shared_identifiers: SharedIdentifiers::new(),
    };
    proof {
        assert(c.deep_view().props =~= tabs_contract_model().props);
        assert(c.deep_view().variants =~= tabs_contract_model().variants);
        assert(c.deep_view().states =~= tabs_contract_model().states);
        assert(c.deep_view().token_dependencies =~= tabs_contract_model().token_dependencies);
        assert(c.deep_view().required_files =~= tabs_contract_model().required_files);
        assert(c.deep_view().shared_identifiers.metadata =~= tabs_contract_model().shared_identifiers.metadata);
        assert(c.deep_view() =~= tabs_contract_model());
    }
    c
}

/// The catalog's entries, in registration order.
pub open spec fn catalog_entry_models() -> Seq<EntryModel> {
    seq![
        spec_entry_of(dialog_contract_model()),
        spec_entry_of(select_contract_model()),
        spec_entry_of(tabs_contract_model()),
    ]
}

/// The three catalog names are pairwise distinct after lowercasing, so
/// building the registry appends exactly the three catalog entries, in
/// order: the built registry holds the dialog, select and tabs entries
/// and nothing else.
pub proof fn lemma_catalog_registry_entries()
    ensures
        spec_fold_entries(Seq::empty(), catalog_entry_models()) == catalog_entry_models(),
{
    let e1 = spec_entry_of(dialog_contract_model());
    let e2 = spec_entry_of(select_contract_model());
    let e3 = spec_entry_of(tabs_contract_model());
    let dl = crate::strutil::lower_seq("Dialog"@);
    let sl = crate::strutil::lower_seq("Select"@);
    let tl = crate::strutil::lower_seq("Tabs"@);
    reveal_strlit("Dialog");
    reveal_strlit("Select");
    reveal_strlit("Tabs");
    assert(dl[0] == crate::strutil::lower_char('D'));
    assert(sl[0] == crate::strutil::lower_char('S'));
    assert(crate::strutil::lower_char('D') as u32 == 100);
    assert(crate::strutil::lower_char('S') as u32 == 115);
    assert(dl != sl);
    assert(dl.len() == 6 && sl.len() == 6 && tl.len() == 4);
    let a1 = crate::registry::register_step(Seq::empty(), e1);
    assert(crate::registry::find_entry(Seq::empty(), dl) == -1);
    assert(a1 == Seq::empty().push(e1));
    assert(a1 =~= seq![e1]);
    let a2 = crate::registry::register_step(a1, e2);
    assert(crate::registry::find_entry(a1, sl) == -1) by {
        assert(a1[0] == e1);
        assert forall|i: int| 0 <= i < a1.len() implies crate::strutil::lower_seq(a1[i].name)
            != sl by {
            assert(a1[i] == e1);
            assert(crate::strutil::lower_seq(e1.name) == dl);
        }
        crate::registry::lemma_find_entry_absent(a1, sl);
    }
    assert(a2 == a1.push(e2));
    assert(a2 =~= seq![e1, e2]);
    let a3 = crate::registry::register_step(a2, e3);
    assert(crate::registry::find_entry(a2, tl) == -1) by {
        assert forall|i: int| 0 <= i < a2.len() implies crate::strutil::lower_seq(a2[i].name)
            != tl by {
            assert(crate::strutil::lower_seq(e1.name).len() == 6);
            assert(crate::strutil::lower_seq(e2.name).len() == 6);
            assert(tl.len() == 4);
            if i == 0 {
                assert(a2[i] == e1);
            } else {
                assert(a2[i] == e2);
            }
        }
        crate::registry::lemma_find_entry_absent(a2, tl);
    }
    assert(a3 == a2.push(e3));
    assert(a3 =~= catalog_entry_models());
    lemma_fold_catalog(a3);
}

/// Builds the registry of all installable components from their
/// contracts: exactly the registration, in order, of the dialog, select
/// and tabs contracts. No validation is performed here; call
/// `generate_registry_validated` for the gated variant.
pub fn generate_registry() -> (r: RegistryIndex)
    ensures
        r.wf(),
        r.view_entries() == spec_fold_entries(Seq::empty(), catalog_entry_models()),
{
    let mut index = RegistryIndex::new();
    let ghost e1 = spec_entry_of(dialog_contract_model());
    let ghost e2 = spec_entry_of(select_contract_model());
    let ghost e3 = spec_entry_of(tabs_contract_model());
    proof {
        assert(index.view_entries() =~= Seq::<EntryModel>::empty());
    }
    let dialog = dialog_contract();
    index.register(&dialog);
    let ghost v1 = index.view_entries();
    assert(v1 == crate::registry::register_step(Seq::empty(), e1));
    let select = select_contract();
    index.register(&select);
    let ghost v2 = index.view_entries();
    assert(v2 == crate::registry::register_step(v1, e2));
    let tabs = tabs_contract();
    index.register(&tabs);
    let ghost v3 = index.view_entries();
    assert(v3 == crate::registry::register_step(v2, e3));
    proof {
        lemma_fold_catalog(index.view_entries());
    }
    index
}

/// Unfolds the registration of the three catalog entries.
proof fn lemma_fold_catalog(built: Seq<EntryModel>)
    requires
        built == crate::registry::register_step(
            crate::registry::register_step(
                crate::registry::register_step(
                    Seq::empty(),
                    spec_entry_of(dialog_contract_model()),
                ),
                spec_entry_of(select_contract_model()),
            ),
            spec_entry_of(tabs_contract_model()),
        ),
    ensures
        built == spec_fold_entries(Seq::empty(), catalog_entry_models()),
{
    let e1 = spec_entry_of(dialog_contract_model());
    let e2 = spec_entry_of(select_contract_model());
    let e3 = spec_entry_of(tabs_contract_model());
    let es = catalog_entry_models();
    assert(es.len() == 3 && es[0] == e1);
    let a1 = crate::registry::register_step(Seq::empty(), e1);
    assert(spec_fold_entries(Seq::empty(), es) == spec_fold_entries(a1, es.drop_first()));
    let es1 = es.drop_first();
    assert(es1 =~= seq![e2, e3]);
    assert(es1.len() == 2 && es1[0] == e2);
    let a2 = crate::registry::register_step(a1, e2);
    assert(spec_fold_entries(a1, es1) == spec_fold_entries(a2, es1.drop_first()));
    let es2 = es1.drop_first();
    assert(es2 =~= seq![e3]);
    assert(es2.len() == 1 && es2[0] == e3);
    let a3 = crate::registry::register_step(a2, e3);
    assert(spec_fold_entries(a2, es2) == spec_fold_entries(a3, es2.drop_first()));
    let es3 = es2.drop_first();
    assert(es3 =~= Seq::<EntryModel>::empty());
    assert(spec_fold_entries(a3, es3) == a3);
}

/// Builds the registry only if every component contract is well-formed,
/// and otherwise returns, per failing contract and in catalog order,
/// its name with the complete list of violations. Succeeds exactly when
/// all three contracts validate cleanly.
pub fn generate_registry_validated() -> (r: Result<
    RegistryIndex,
    Vec<(String, Vec<ValidationError>)>,
>)
    ensures
        ({
            let dv = spec_validate(dialog_contract_model());
            let sv = spec_validate(select_contract_model());
            let tv = spec_validate(tabs_contract_model());
            &&& (r is Ok) == (dv.len() == 0 && sv.len() == 0 && tv.len() == 0)
            &&& match r {
                Ok(idx) => idx.wf() && idx.view_entries() == spec_fold_entries(
                    Seq::empty(),
                    catalog_entry_models(),
                ),
                Err(errs) => errs.deep_view() =~= (if dv.len() > 0 {
                    seq![("Dialog"@, dv)]
                } else {
                    Seq::empty()
                }) + (if sv.len() > 0 {
                    seq![("Select"@, sv)]
                } else {
                    Seq::empty()
                }) + (if tv.len() > 0 {
                    seq![("Tabs"@, tv)]
                } else {
                    Seq::empty()
                }),
            }
        }),
{
    let dialog = dialog_contract();
    let select = select_contract();
    let tabs = tabs_contract();
    let d_errors = dialog.validate();
    let s_errors = select.validate();
    let t_errors = tabs.validate();
    let ghost dv = spec_validate(dialog_contract_model());
    let ghost sv = spec_validate(select_contract_model());
    let ghost tv = spec_validate(tabs_contract_model());

    let mut validation_errors: Vec<(String, Vec<ValidationError>)> = Vec::new();
    if d_errors.len() > 0 {
        validation_errors.push((String::from_str("Dialog"), d_errors));
    }
    if s_errors.len() > 0 {
        validation_errors.push((String::from_str("Select"), s_errors));
    }
    if t_errors.len() > 0 {
        validation_errors.push((String::from_str("Tabs"), t_errors));
    }

    if validation_errors.len() > 0 {
        proof {
            assert(validation_errors.deep_view() =~= (if dv.len() > 0 {
                seq![("Dialog"@, dv)]
            } else {
                Seq::<(Seq<char>, Seq<crate::contracts::ValidationErrorModel>)>::empty()
            }) + (if sv.len() > 0 {
                seq![("Select"@, sv)]
            } else {
                Seq::empty()
            }) + (if tv.len() > 0 {
                seq![("Tabs"@, tv)]
            } else {
                Seq::empty()
            }));
        }
        return Err(validation_errors);
    }

    let mut index = RegistryIndex::new();
    let ghost e1 = spec_entry_of(dialog_contract_model());
    let ghost e2 = spec_entry_of(select_contract_model());
    let ghost e3 = spec_entry_of(tabs_contract_model());
    proof {
        assert(index.view_entries() =~= Seq::<EntryModel>::empty());
    }
    index.register(&dialog);
    let ghost v1 = index.view_entries();
    assert(v1 == crate::registry::register_step(Seq::empty(), e1));
    index.register(&select);
    let ghost v2 = index.view_entries();
    assert(v2 == crate::registry::register_step(v1, e2));
    index.register(&tabs);
    let ghost v3 = index.view_entries();
    assert(v3 == crate::registry::register_step(v2, e3));
    proof {
        lemma_fold_catalog(index.view_entries());
    }
    Ok(index)
}

} // verus!
