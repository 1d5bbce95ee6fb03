use workbench::state::{
    Controllable, HoverState, InteractionState, OpenState, SelectionState, ValidationState,
};

#[test]
fn controllable_controlled() {
    let c = Controllable::Controlled(42);
    assert!(c.is_controlled());
    assert!(!c.is_uncontrolled());
    assert_eq!(*c.value(), 42);
}

#[test]
fn controllable_uncontrolled() {
    let c = Controllable::Uncontrolled("hello");
    assert!(c.is_uncontrolled());
    assert_eq!(*c.value(), "hello");
}

#[test]
fn controllable_default_is_uncontrolled() {
    let c: Controllable<i32> = Controllable::default();
    assert!(c.is_uncontrolled());
    assert_eq!(*c.value(), 0);
}

#[test]
fn open_state_toggle() {
    let mut s = OpenState::Closed;
    assert!(s.is_closed());
    s.toggle();
    assert!(s.is_open());
    s.toggle();
    assert!(s.is_closed());
}

#[test]
fn open_state_explicit() {
    let mut s = OpenState::default();
    s.open();
    assert!(s.is_open());
    s.close();
    assert!(s.is_closed());
}

#[test]
fn selection_state_toggle() {
    let mut s = SelectionState::Unselected;
    s.toggle();
    assert!(s.is_selected());
    s.toggle();
    assert!(!s.is_selected());
}

#[test]
fn interaction_state_capabilities() {
    let enabled = InteractionState::Enabled;
    assert!(enabled.is_focusable());
    assert!(enabled.is_mutable());

    let disabled = InteractionState::Disabled;
    assert!(!disabled.is_focusable());
    assert!(!disabled.is_mutable());

    let readonly = InteractionState::Readonly;
    assert!(readonly.is_focusable());
    assert!(!readonly.is_mutable());
}

#[test]
fn hover_state() {
    let idle = HoverState::Idle;
    assert!(!idle.is_hovered());
    let hovered = HoverState::Hovered;
    assert!(hovered.is_hovered());
}

#[test]
fn validation_state() {
    let ok = ValidationState::Valid;
    assert!(!ok.is_error());
    let error = ValidationState::Error;
    assert!(error.is_error());
}
