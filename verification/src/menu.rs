//! Menu-item state switching: the enabled/disabled toggle as a value.

use vstd::prelude::*;

verus! {

/// Whether a menu item can be chosen.
#[derive(Debug, Copy, Clone, Eq, PartialEq, Structural)]
pub enum MenuItemSwitchState {
    Enabled,
    Disabled,
}

impl From<bool> for MenuItemSwitchState {
    fn from(value: bool) -> (r: Self) {
        if value {
            MenuItemSwitchState::Enabled
        } else {
            MenuItemSwitchState::Disabled
        }
    }
}

impl vstd::std_specs::convert::FromSpecImpl<bool> for MenuItemSwitchState {
    open spec fn obeys_from_spec() -> bool {
        true
    }

    open spec fn from_spec(value: bool) -> Self {
        if value {
            MenuItemSwitchState::Enabled
        } else {
            MenuItemSwitchState::Disabled
        }
    }
}

impl From<MenuItemSwitchState> for bool {
    fn from(value: MenuItemSwitchState) -> (r: Self) {
        matches!(value, MenuItemSwitchState::Enabled)
    }
}

impl vstd::std_specs::convert::FromSpecImpl<MenuItemSwitchState> for bool {
    open spec fn obeys_from_spec() -> bool {
        true
    }

    open spec fn from_spec(value: MenuItemSwitchState) -> Self {
        value == MenuItemSwitchState::Enabled
    }
}

} // verus!
