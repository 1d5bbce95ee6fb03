//! Component metadata: the contract describing one component's public
//! surface (props, variants, states, token dependencies, interaction
//! narrative), and the validation pass that checks a contract is
//! well-formed before it is trusted by the registry.

use vstd::prelude::*;

use crate::strutil::dec_str;

verus! {

/// How a component was sourced.
#[derive(Debug, Clone, Copy, PartialEq, Eq, Structural)]
pub enum Disposition {
    /// Re-used from an upstream library without modification.
    Reuse,
    /// Forked from upstream with local modifications.
    Fork,
    /// Written from scratch for this project.
    Rewrite,
}

impl DeepView for Disposition {
    type V = Disposition;

    open spec fn deep_view(&self) -> Disposition {
        *self
    }
}

/// Interactive and visual states a component can enter.
#[derive(Debug, Clone, Copy, PartialEq, Eq, Hash, Structural)]
pub enum ComponentState {
    Hover,
    Active,
    Focused,
    Disabled,
    Error,
    Open,
    Selected,
    Readonly,
}

impl DeepView for ComponentState {
    type V = ComponentState;

    open spec fn deep_view(&self) -> ComponentState {
        *self
    }
}

impl ComponentState {
    /// Every component state, in declaration order.
    pub fn all() -> (r: Vec<ComponentState>)
        ensures
            r@ == seq![
                ComponentState::Hover,
                ComponentState::Active,
                ComponentState::Focused,
                ComponentState::Disabled,
                ComponentState::Error,
                ComponentState::Open,
                ComponentState::Selected,
                ComponentState::Readonly,
            ],
    {
        let mut v: Vec<ComponentState> = Vec::new();
        v.push(ComponentState::Hover);
        v.push(ComponentState::Active);
        v.push(ComponentState::Focused);
        v.push(ComponentState::Disabled);
        v.push(ComponentState::Error);
        v.push(ComponentState::Open);
        v.push(ComponentState::Selected);
        v.push(ComponentState::Readonly);
        proof {
            assert(v@ =~= seq![
                ComponentState::Hover,
                ComponentState::Active,
                ComponentState::Focused,
                ComponentState::Disabled,
                ComponentState::Error,
                ComponentState::Open,
                ComponentState::Selected,
                ComponentState::Readonly,
            ]);
        }
        v
    }
}

/// A single prop definition.
#[derive(Debug, Clone)]
pub struct PropDef {
    /// Prop name as it appears in code.
    pub name: String,
    /// Type name, as written in the consuming language.
    pub prop_type: String,
    /// Whether the prop must be provided by the caller.
    pub required: bool,
    /// String rendering of the default value, if any.
    pub default_value: Option<String>,
    /// What the prop is for.
    pub description: String,
}

/// Mathematical model of a prop definition.
#[verifier::ext_equal]
pub struct PropModel {
    pub name: Seq<char>,
    pub prop_type: Seq<char>,
    pub required: bool,
    pub default_value: Option<Seq<char>>,
    pub description: Seq<char>,
}

impl DeepView for PropDef {
    type V = PropModel;

    open spec fn deep_view(&self) -> PropModel {
        PropModel {
            name: self.name@,
            prop_type: self.prop_type@,
            required: self.required,
            default_value: self.default_value.deep_view(),
            description: self.description@,
        }
    }
}

/// A reference to a design token used by a component.
#[derive(Debug, Clone)]
pub struct TokenRef {
    /// Dot-separated token path.
    pub path: String,
    /// How the token is used.
    pub usage: String,
}

/// Mathematical model of a token reference.
#[verifier::ext_equal]
pub struct TokenRefModel {
    pub path: Seq<char>,
    pub usage: Seq<char>,
}

impl DeepView for TokenRef {
    type V = TokenRefModel;

    open spec fn deep_view(&self) -> TokenRefModel {
        TokenRefModel { path: self.path@, usage: self.usage@ }
    }
}

/// Narrative descriptions of how the component handles interactions.
#[derive(Debug, Clone)]
pub struct InteractionChecklist {
    /// How the component participates in focus navigation.
    pub focus_behavior: Option<String>,
    /// Keyboard shortcuts and navigation model.
    pub keyboard_model: Option<String>,
    /// Click, hover, and pointer interaction behavior.
    pub pointer_behavior: Option<String>,
    /// Controlled versus uncontrolled state management.
    pub state_model: Option<String>,
    /// Behavior when the component is disabled.
    pub disabled_behavior: Option<String>,
    /// Behavior when the component is read-only.
    pub readonly_behavior: Option<String>,
}

impl InteractionChecklist {
    /// An empty checklist, with every narrative absent.
    pub fn new() -> (r: Self)
        ensures
            r.focus_behavior is None,
            r.keyboard_model is None,
            r.pointer_behavior is None,
            r.state_model is None,
            r.disabled_behavior is None,
            r.readonly_behavior is None,
    {
        InteractionChecklist {
            focus_behavior: None,
            keyboard_model: None,
            pointer_behavior: None,
            state_model: None,
            disabled_behavior: None,
            readonly_behavior: None,
        }
    }
}

/// Mathematical model of the interaction checklist.
#[verifier::ext_equal]
pub struct ChecklistModel {
    pub focus_behavior: Option<Seq<char>>,
    pub keyboard_model: Option<Seq<char>>,
    pub pointer_behavior: Option<Seq<char>>,
    pub state_model: Option<Seq<char>>,
    pub disabled_behavior: Option<Seq<char>>,
    pub readonly_behavior: Option<Seq<char>>,
}

impl DeepView for InteractionChecklist {
    type V = ChecklistModel;

    open spec fn deep_view(&self) -> ChecklistModel {
        ChecklistModel {
            focus_behavior: self.focus_behavior.deep_view(),
            keyboard_model: self.keyboard_model.deep_view(),
            pointer_behavior: self.pointer_behavior.deep_view(),
            state_model: self.state_model.deep_view(),
            disabled_behavior: self.disabled_behavior.deep_view(),
            readonly_behavior: self.readonly_behavior.deep_view(),
        }
    }
}

/// Boolean acceptance checklist for component sign-off.
#[derive(Debug, Clone, PartialEq, Eq, Structural)]
pub struct AcceptanceChecklist {
    pub has_focus_behavior: bool,
    pub has_keyboard_model: bool,
    pub has_pointer_behavior: bool,
    pub has_state_model: bool,
    pub has_disabled_semantics: bool,
    pub surfaces_mapped_to_tokens: bool,
    pub no_hardcoded_colors: bool,
    pub has_release_mode_evidence: bool,
    pub no_unapproved_regressions: bool,
    pub bounded_rendering_verified: bool,
    pub has_story_coverage: bool,
    pub has_interaction_tests: bool,
    pub has_provenance_metadata: bool,
}

impl AcceptanceChecklist {
    /// A checklist with every box unticked.
    pub fn new() -> (r: Self)
        ensures
            r == (AcceptanceChecklist {
                has_focus_behavior: false,
                has_keyboard_model: false,
                has_pointer_behavior: false,
                has_state_model: false,
                has_disabled_semantics: false,
                surfaces_mapped_to_tokens: false,
                no_hardcoded_colors: false,
                has_release_mode_evidence: false,
                no_unapproved_regressions: false,
                bounded_rendering_verified: false,
                has_story_coverage: false,
                has_interaction_tests: false,
                has_provenance_metadata: false,
            }),
    {
        AcceptanceChecklist {
            has_focus_behavior: false,
            has_keyboard_model: false,
            has_pointer_behavior: false,
            has_state_model: false,
            has_disabled_semantics: false,
            surfaces_mapped_to_tokens: false,
            no_hardcoded_colors: false,
            has_release_mode_evidence: false,
            no_unapproved_regressions: false,
            bounded_rendering_verified: false,
            has_story_coverage: false,
            has_interaction_tests: false,
            has_provenance_metadata: false,
        }
    }
}

impl DeepView for AcceptanceChecklist {
    type V = AcceptanceChecklist;

    open spec fn deep_view(&self) -> AcceptanceChecklist {
        *self
    }
}

/// Shared identifiers every component instance may carry.
#[derive(Debug, Clone)]
pub struct SharedIdentifiers {
    /// Unique identifier for the component instance.
    pub id: Option<String>,
    /// Tooltip text.
    pub tooltip: Option<String>,
    /// Arbitrary key-value metadata, in insertion order.
    pub metadata: Vec<(String, String)>,
}

impl SharedIdentifiers {
    /// Empty identifiers: no id, no tooltip, no metadata.
    pub fn new() -> (r: Self)
        ensures
            r.id is None,
            r.tooltip is None,
            r.metadata@.len() == 0,
    {
        SharedIdentifiers { id: None, tooltip: None, metadata: Vec::new() }
    }
}

/// Mathematical model of the shared identifiers.
#[verifier::ext_equal]
pub struct SharedIdentifiersModel {
    pub id: Option<Seq<char>>,
    pub tooltip: Option<Seq<char>>,
    pub metadata: Seq<(Seq<char>, Seq<char>)>,
}

impl DeepView for SharedIdentifiers {
    type V = SharedIdentifiersModel;

    open spec fn deep_view(&self) -> SharedIdentifiersModel {
        SharedIdentifiersModel {
            id: self.id.deep_view(),
            tooltip: self.tooltip.deep_view(),
            metadata: self.metadata.deep_view(),
        }
    }
}

/// The full contract for a single UI component.
#[derive(Debug, Clone)]
pub struct ComponentContract {
    /// Human-readable component name.
    pub name: String,
    /// Semver version string for this contract revision.
    pub version: String,
    /// Whether this component is reused, forked, or rewritten.
    pub disposition: Disposition,
    /// Prop definitions describing the public API surface.
    pub props: Vec<PropDef>,
    /// Named visual variants the component supports.
    pub variants: Vec<String>,
    /// Interactive and visual states the component can enter.
    pub states: Vec<ComponentState>,
    /// Design-token paths the component depends on.
    pub token_dependencies: Vec<TokenRef>,
    /// Narrative checklist describing interaction behaviors.
    pub interaction_checklist: InteractionChecklist,
    /// Boolean acceptance checklist for sign-off.
    pub acceptance_checklist: AcceptanceChecklist,
    /// File paths required for the component implementation.
    pub required_files: Vec<String>,
    /// Shared identifiers available on all component instances.
    pub shared_identifiers: SharedIdentifiers,
}

/// Mathematical model of a component contract.
#[verifier::ext_equal]
pub struct ContractModel {
    pub name: Seq<char>,
    pub version: Seq<char>,
    pub disposition: Disposition,
    pub props: Seq<PropModel>,
    pub variants: Seq<Seq<char>>,
    pub states: Seq<ComponentState>,
    pub token_dependencies: Seq<TokenRefModel>,
    pub interaction_checklist: ChecklistModel,
    pub acceptance_checklist: AcceptanceChecklist,
    pub required_files: Seq<Seq<char>>,
    pub shared_identifiers: SharedIdentifiersModel,
}

impl DeepView for ComponentContract {
    type V = ContractModel;

    open spec fn deep_view(&self) -> ContractModel {
        ContractModel {
            name: self.name@,
            version: self.version@,
            disposition: self.disposition,
            props: self.props.deep_view(),
            variants: self.variants.deep_view(),
            states: self.states.deep_view(),
            token_dependencies: self.token_dependencies.deep_view(),
            interaction_checklist: self.interaction_checklist.deep_view(),
            acceptance_checklist: self.acceptance_checklist,
            required_files: self.required_files.deep_view(),
            shared_identifiers: self.shared_identifiers.deep_view(),
        }
    }
}

/// An error produced by contract validation.
#[derive(Debug, Clone)]
pub struct ValidationError {
    /// Dot-path to the field with the issue.
    pub field: String,
    /// What is wrong with it.
    pub message: String,
}

/// Mathematical model of a validation error.
#[verifier::ext_equal]
pub struct ValidationErrorModel {
    pub field: Seq<char>,
    pub message: Seq<char>,
}

impl DeepView for ValidationError {
    type V = ValidationErrorModel;

    open spec fn deep_view(&self) -> ValidationErrorModel {
        ValidationErrorModel { field: self.field@, message: self.message@ }
    }
}

impl ValidationError {
    /// Renders the error as "field: message".
    pub fn to_string(&self) -> (r: String)
        ensures
            r@ == self.field@ + ": "@ + self.message@,
    {
        let mut out = self.field.clone();
        out.append(": ");
        out.append(self.message.as_str());
        out
    }
}

/// A single validation error, in model form.
pub open spec fn verr(field: Seq<char>, message: Seq<char>) -> ValidationErrorModel {
    ValidationErrorModel { field, message }
}

/// The errors reported for required props that carry a default value,
/// over the props before index `i`, in prop order.
pub open spec fn prop_errors_upto(props: Seq<PropModel>, i: int) -> Seq<ValidationErrorModel>
    decreases i,
{
    if i <= 0 {
        Seq::empty()
    } else {
        prop_errors_upto(props, i - 1) + if props[i - 1].required && props[i
            - 1].default_value is Some {
            seq![
                verr(
                    "props["@ + dec_str((i - 1) as nat) + "].default_value"@,
                    "Required prop '"@ + props[i - 1].name + "' should not have a default value"@,
                ),
            ]
        } else {
            Seq::empty()
        }
    }
}

/// The errors reported for states whose interaction narrative is absent.
pub open spec fn state_errors(c: ContractModel) -> Seq<ValidationErrorModel> {
    let ic = c.interaction_checklist;
    (if c.states.contains(ComponentState::Disabled) && ic.disabled_behavior is None {
        seq![
            verr(
                "interaction_checklist.disabled_behavior"@,
                "Disabled state is listed but disabled_behavior is not described"@,
            ),
        ]
    } else {
        Seq::empty()
    }) + (if c.states.contains(ComponentState::Readonly) && ic.readonly_behavior is None {
        seq![
            verr(
                "interaction_checklist.readonly_behavior"@,
                "Readonly state is listed but readonly_behavior is not described"@,
            ),
        ]
    } else {
        Seq::empty()
    }) + (if c.states.contains(ComponentState::Focused) && ic.focus_behavior is None {
        seq![
            verr(
                "interaction_checklist.focus_behavior"@,
                "Focused state is listed but focus_behavior is not described"@,
            ),
        ]
    } else {
        Seq::empty()
    }) + (if c.states.contains(ComponentState::Hover) && ic.pointer_behavior is None {
        seq![
            verr(
                "interaction_checklist.pointer_behavior"@,
                "Hover state is listed but pointer_behavior is not described"@,
            ),
        ]
    } else {
        Seq::empty()
    })
}

/// The complete list of validation errors for a contract, in reporting
/// order: name, version, props presence, states presence, per-prop
/// default-value rule, then state-dependent narrative rules.
pub open spec fn spec_validate(c: ContractModel) -> Seq<ValidationErrorModel> {
    (if c.name.len() == 0 {
        seq![verr("name"@, "Component name must not be empty"@)]
    } else {
        Seq::empty()
    }) + (if c.version.len() == 0 {
        seq![verr("version"@, "Version must not be empty"@)]
    } else {
        Seq::empty()
    }) + (if c.props.len() == 0 {
        seq![verr("props"@, "At least one prop must be defined"@)]
    } else {
        Seq::empty()
    }) + (if c.states.len() == 0 {
        seq![verr("states"@, "At least one state must be listed"@)]
    } else {
        Seq::empty()
    }) + prop_errors_upto(c.props, c.props.len() as int) + state_errors(c)
}

/// Copies a list of prop definitions, field by field.
pub fn clone_props(v: &Vec<PropDef>) -> (r: Vec<PropDef>)
    ensures
        r.deep_view() == v.deep_view(),
{
    let mut out: Vec<PropDef> = Vec::new();
    let mut i: usize = 0;
    while i < v.len()
        invariant
            i <= v@.len(),
            out@.len() == i,
            forall|k: int| 0 <= k < i ==> #[trigger] out@[k].deep_view() == v@[k].deep_view(),
        decreases v@.len() - i,
    {
        let p = &v[i];
        out.push(
            PropDef {
                name: p.name.clone(),
                prop_type: p.prop_type.clone(),
                required: p.required,
                default_value: crate::strutil::clone_opt_string(&p.default_value),
                description: p.description.clone(),
            },
        );
        i = i + 1;
    }
    proof {
        assert forall|k: int| 0 <= k < out@.len() implies out.deep_view()[k] == v.deep_view()[k]
        by {
            assert(out.deep_view()[k] == out@[k].deep_view());
            assert(v.deep_view()[k] == v@[k].deep_view());
        }
        assert(out.deep_view() =~= v.deep_view());
    }
    out
}

/// Copies a list of token references, field by field.
pub fn clone_tokens(v: &Vec<TokenRef>) -> (r: Vec<TokenRef>)
    ensures
        r.deep_view() == v.deep_view(),
{
    let mut out: Vec<TokenRef> = Vec::new();
    let mut i: usize = 0;
    while i < v.len()
        invariant
            i <= v@.len(),
            out@.len() == i,
            forall|k: int| 0 <= k < i ==> #[trigger] out@[k].deep_view() == v@[k].deep_view(),
        decreases v@.len() - i,
    {
        out.push(TokenRef { path: v[i].path.clone(), usage: v[i].usage.clone() });
        i = i + 1;
    }
    proof {
        assert forall|k: int| 0 <= k < out@.len() implies out.deep_view()[k] == v.deep_view()[k]
        by {
            assert(out.deep_view()[k] == out@[k].deep_view());
            assert(v.deep_view()[k] == v@[k].deep_view());
        }
        assert(out.deep_view() =~= v.deep_view());
    }
    out
}

/// Copies a list of component states.
pub fn clone_states(v: &Vec<ComponentState>) -> (r: Vec<ComponentState>)
    ensures
        r.deep_view() == v.deep_view(),
        r@ == v@,
{
    let mut out: Vec<ComponentState> = Vec::new();
    let mut i: usize = 0;
    while i < v.len()
        invariant
            i <= v@.len(),
            out@ =~= v@.subrange(0, i as int),
        decreases v@.len() - i,
    {
        out.push(v[i]);
        i = i + 1;
        assert(out@ =~= v@.subrange(0, i as int));
    }
    assert(out@ =~= v@);
    assert(out.deep_view() =~= v.deep_view());
    out
}

/// Whether a state list contains a given state.
fn states_contain(states: &Vec<ComponentState>, s: ComponentState) -> (r: bool)
    ensures
        r == states.deep_view().contains(s),
{
    let mut i: usize = 0;
    while i < states.len()
        invariant
            i <= states@.len(),
            forall|j: int| 0 <= j < i ==> states.deep_view()[j] != s,
        decreases states@.len() - i,
    {
        if states[i] == s {
            assert(states.deep_view()[i as int] == s);
            return true;
        }
        i = i + 1;
    }
    false
}

impl ComponentContract {
    /// Validates the contract, returning the complete list of violations
    /// (never short-circuiting), each with a dot-path field locator.
    ///
    /// A contract is well-formed iff the returned list is empty: name and
    /// version non-empty, at least one prop and one state, no required
    /// prop carrying a default value, and a narrative for each of the
    /// Disabled/Readonly/Focused/Hover states that is listed.
    #[verifier::rlimit(60)]
    pub fn validate(&self) -> (errors: Vec<ValidationError>)
        ensures
            errors.deep_view() == spec_validate(self.deep_view()),
    {
        let ghost model = self.deep_view();
        let mut errors: Vec<ValidationError> = Vec::new();

        if self.name.as_str().unicode_len() == 0 {
            errors.push(
                ValidationError {
                    field: String::from_str("name"),
                    message: String::from_str("Component name must not be empty"),
                },
            );
        }
        if self.version.as_str().unicode_len() == 0 {
            errors.push(
                ValidationError {
                    field: String::from_str("version"),
                    message: String::from_str("Version must not be empty"),
                },
            );
        }
        if self.props.len() == 0 {
            errors.push(
                ValidationError {
                    field: String::from_str("props"),
                    message: String::from_str("At least one prop must be defined"),
                },
            );
        }
        if self.states.len() == 0 {
            errors.push(
                ValidationError {
                    field: String::from_str("states"),
                    message: String::from_str("At least one state must be listed"),
                },
            );
        }
        let ghost head = (if model.name.len() == 0 {
            seq![verr("name"@, "Component name must not be empty"@)]
        } else {
            Seq::<ValidationErrorModel>::empty()
        }) + (if model.version.len() == 0 {
            seq![verr("version"@, "Version must not be empty"@)]
        } else {
            Seq::<ValidationErrorModel>::empty()
        }) + (if model.props.len() == 0 {
            seq![verr("props"@, "At least one prop must be defined"@)]
        } else {
            Seq::<ValidationErrorModel>::empty()
        }) + (if model.states.len() == 0 {
            seq![verr("states"@, "At least one state must be listed"@)]
        } else {
            Seq::<ValidationErrorModel>::empty()
        });
        assert(errors.deep_view() =~= head);

        let mut i: usize = 0;
        while i < self.props.len()
            invariant
                self.props.len() == model.props.len(),
                model == self.deep_view(),
                head == spec_validate_head(model),
                i <= model.props.len(),
                errors.deep_view() =~= head + prop_errors_upto(model.props, i as int),
            decreases self.props.len() - i,
        {
            let ghost before = errors.deep_view();
            let p = &self.props[i];
            let ghost pm = model.props[i as int];
            assert(pm == p.deep_view());
            if p.required && p.default_value.is_some() {
                let mut field = String::from_str("props[");
                let idx = crate::strutil::usize_to_string(i);
                field.append(idx.as_str());
                field.append("].default_value");
                let mut message = String::from_str("Required prop '");
                message.append(p.name.as_str());
                message.append("' should not have a default value");
                assert(field@ =~= "props["@ + dec_str(i as nat) + "].default_value"@);
                assert(message@ =~= "Required prop '"@ + pm.name
                    + "' should not have a default value"@);
                let e = ValidationError { field, message };
                let ghost em = e.deep_view();
                errors.push(e);
                proof {
                    assert(errors.deep_view() =~= before.push(em));
                    assert(em == verr(
                        "props["@ + dec_str(i as nat) + "].default_value"@,
                        "Required prop '"@ + pm.name + "' should not have a default value"@,
                    ));
                    assert(prop_errors_upto(model.props, i + 1) =~= prop_errors_upto(
                        model.props,
                        i as int,
                    ) + seq![em]);
                    assert(before.push(em) =~= before + seq![em]);
                }
            } else {
                proof {
                    assert(prop_errors_upto(model.props, i + 1) =~= prop_errors_upto(
                        model.props,
                        i as int,
                    ));
                }
            }
            i = i + 1;
            assert(errors.deep_view() =~= head + prop_errors_upto(model.props, i as int));
        }

        let ic = &self.interaction_checklist;
        if states_contain(&self.states, ComponentState::Disabled) && ic.disabled_behavior.is_none()
        {
            errors.push(
                ValidationError {
                    field: String::from_str("interaction_checklist.disabled_behavior"),
                    message: String::from_str(
                        "Disabled state is listed but disabled_behavior is not described",
                    ),
                },
            );
        }
        if states_contain(&self.states, ComponentState::Readonly) && ic.readonly_behavior.is_none()
        {
            errors.push(
                ValidationError {
                    field: String::from_str("interaction_checklist.readonly_behavior"),
                    message: String::from_str(
                        "Readonly state is listed but readonly_behavior is not described",
                    ),
                },
            );
        }
        if states_contain(&self.states, ComponentState::Focused) && ic.focus_behavior.is_none() {
            errors.push(
                ValidationError {
                    field: String::from_str("interaction_checklist.focus_behavior"),
                    message: String::from_str(
                        "Focused state is listed but focus_behavior is not described",
                    ),
                },
            );
        }
        if states_contain(&self.states, ComponentState::Hover) && ic.pointer_behavior.is_none() {
            errors.push(
                ValidationError {
                    field: String::from_str("interaction_checklist.pointer_behavior"),
                    message: String::from_str(
                        "Hover state is listed but pointer_behavior is not described",
                    ),
                },
            );
        }
        assert(errors.deep_view() =~= spec_validate(model));
        errors
    }
}

/// The first four (presence) checks of validation, in order.
pub open spec fn spec_validate_head(c: ContractModel) -> Seq<ValidationErrorModel> {
    (if c.name.len() == 0 {
        seq![verr("name"@, "Component name must not be empty"@)]
    } else {
        Seq::empty()
    }) + (if c.version.len() == 0 {
        seq![verr("version"@, "Version must not be empty"@)]
    } else {
        Seq::empty()
    }) + (if c.props.len() == 0 {
        seq![verr("props"@, "At least one prop must be defined"@)]
    } else {
        Seq::empty()
    }) + (if c.states.len() == 0 {
        seq![verr("states"@, "At least one state must be listed"@)]
    } else {
        Seq::empty()
    })
}

} // verus!
