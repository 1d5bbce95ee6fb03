//! Interaction-state primitives shared by components: controlled versus
//! uncontrolled values, open/closed toggles, selection, interaction
//! capability, hover and validation states.

use vstd::prelude::*;

verus! {

/// A value that is either controlled (externally owned) or uncontrolled
/// (internally owned, starting from a default).
#[derive(Debug, Clone)]
pub enum Controllable<T> {
    /// The parent owns the value; the component only renders it.
    Controlled(T),
    /// The component owns the value; the parent supplied the initial one.
    Uncontrolled(T),
}

impl<T> Controllable<T> {
    /// The current value, whatever the control mode.
    pub fn value(&self) -> (r: &T)
        ensures
            r == match self {
                Controllable::Controlled(v) => v,
                Controllable::Uncontrolled(v) => v,
            },
    {
        match self {
            Controllable::Controlled(v) => v,
            Controllable::Uncontrolled(v) => v,
        }
    }

    /// Whether the value is externally controlled.
    pub fn is_controlled(&self) -> (r: bool)
        ensures
            r == (self is Controlled),
    {
        matches!(self, Controllable::Controlled(_))
    }

    /// Whether the value is internally managed.
    pub fn is_uncontrolled(&self) -> (r: bool)
        ensures
            r == (self is Uncontrolled),
    {
        matches!(self, Controllable::Uncontrolled(_))
    }
}

impl<T: Default> Default for Controllable<T> {
    /// The default is uncontrolled, holding the item type's default.
    fn default() -> (r: Self)
        ensures
            r is Uncontrolled,
    {
        Controllable::Uncontrolled(T::default())
    }
}

/// Open/closed toggle state, used by overlays such as dialogs and
/// dropdowns.
#[derive(Debug, Clone, Copy, PartialEq, Eq, Structural)]
pub enum OpenState {
    Closed,
    Open,
}

impl Default for OpenState {
    fn default() -> (r: Self)
        ensures
            r == OpenState::Closed,
    {
        OpenState::Closed
    }
}

impl OpenState {
    pub fn is_open(&self) -> (r: bool)
        ensures
            r == (*self == OpenState::Open),
    {
        *self == OpenState::Open
    }

    pub fn is_closed(&self) -> (r: bool)
        ensures
            r == (*self == OpenState::Closed),
    {
        *self == OpenState::Closed
    }

    /// Flips between open and closed.
    pub fn toggle(&mut self)
        ensures
            *final(self) == if *old(self) == OpenState::Open {
                OpenState::Closed
            } else {
                OpenState::Open
            },
    {
        *self = match *self {
            OpenState::Open => OpenState::Closed,
            OpenState::Closed => OpenState::Open,
        };
    }

    pub fn open(&mut self)
        ensures
            *final(self) == OpenState::Open,
    {
        *self = OpenState::Open;
    }

    pub fn close(&mut self)
        ensures
            *final(self) == OpenState::Closed,
    {
        *self = OpenState::Closed;
    }
}

/// Selection state, used for list items and tabs.
#[derive(Debug, Clone, Copy, PartialEq, Eq, Structural)]
pub enum SelectionState {
    Unselected,
    Selected,
}

impl Default for SelectionState {
    fn default() -> (r: Self)
        ensures
            r == SelectionState::Unselected,
    {
        SelectionState::Unselected
    }
}

impl SelectionState {
    pub fn is_selected(&self) -> (r: bool)
        ensures
            r == (*self == SelectionState::Selected),
    {
        *self == SelectionState::Selected
    }

    /// Flips between selected and unselected.
    pub fn toggle(&mut self)
        ensures
            *final(self) == if *old(self) == SelectionState::Selected {
                SelectionState::Unselected
            } else {
                SelectionState::Selected
            },
    {
        *self = match *self {
            SelectionState::Selected => SelectionState::Unselected,
            SelectionState::Unselected => SelectionState::Selected,
        };
    }
}

/// Interaction capability: disabled blocks all interaction, readonly
/// allows focus and reading but blocks mutation.
#[derive(Debug, Clone, Copy, PartialEq, Eq, Structural)]
pub enum InteractionState {
    Enabled,
    Disabled,
    Readonly,
}

impl Default for InteractionState {
    fn default() -> (r: Self)
        ensures
            r == InteractionState::Enabled,
    {
        InteractionState::Enabled
    }
}

impl InteractionState {
    pub fn is_enabled(&self) -> (r: bool)
        ensures
            r == (*self == InteractionState::Enabled),
    {
        *self == InteractionState::Enabled
    }

    pub fn is_disabled(&self) -> (r: bool)
        ensures
            r == (*self == InteractionState::Disabled),
    {
        *self == InteractionState::Disabled
    }

    pub fn is_readonly(&self) -> (r: bool)
        ensures
            r == (*self == InteractionState::Readonly),
    {
        *self == InteractionState::Readonly
    }

    /// Whether the element can receive focus (enabled or readonly).
    pub fn is_focusable(&self) -> (r: bool)
        ensures
            r == (*self != InteractionState::Disabled),
    {
        !self.is_disabled()
    }

    /// Whether the element can be mutated (only when enabled).
    pub fn is_mutable(&self) -> (r: bool)
        ensures
            r == (*self == InteractionState::Enabled),
    {
        self.is_enabled()
    }
}

/// Visual hover state for pointer interactions.
#[derive(Debug, Clone, Copy, PartialEq, Eq, Structural)]
pub enum HoverState {
    Idle,
    Hovered,
}

impl Default for HoverState {
    fn default() -> (r: Self)
        ensures
            r == HoverState::Idle,
    {
        HoverState::Idle
    }
}

impl HoverState {
    pub fn is_hovered(&self) -> (r: bool)
        ensures
            r == (*self == HoverState::Hovered),
    {
        *self == HoverState::Hovered
    }
}

/// Validation state for form-like components.
#[derive(Debug, Clone, Copy, PartialEq, Eq, Structural)]
pub enum ValidationState {
    Valid,
    Error,
}

impl Default for ValidationState {
    fn default() -> (r: Self)
        ensures
            r == ValidationState::Valid,
    {
        ValidationState::Valid
    }
}

impl ValidationState {
    pub fn is_error(&self) -> (r: bool)
        ensures
            r == (*self == ValidationState::Error),
    {
        *self == ValidationState::Error
    }
}

} // verus!
