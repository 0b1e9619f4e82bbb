//! Application actions: every state transition the interface can request.

use vstd::prelude::*;
use crate::models::DateRange;

verus! {

/// Application actions representing all possible state transitions.
#[derive(Clone, Debug, PartialEq, Eq)]
pub enum Action {
    // Core events
    Tick,
    Render,
    Resize(u16, u16),
    Quit,
    // Navigation
    NextTab,
    PrevTab,
    Up,
    Down,
    Left,
    Right,
    // Input modes
    EnterInsert,
    EnterNormal,
    // Form actions
    SubmitTransaction,
    SubmitFunds,
    CancelInput,
    // Data refresh
    RefreshBalances,
    RefreshCategories,
    // Reporting
    ChangeDateRange(DateRange),
    // UI toggles
    ToggleHelp,
    // Text input
    InputChar(char),
    InputBackspace,
    InputDelete,
    // Category selection
    SelectCategory(usize),
    // Settings
    StartEditingCategory,
    ConfirmCategoryEdit,
    SaveSettings,
}

/// Direction for navigation.
#[derive(Clone, Copy, Debug, PartialEq, Eq)]
pub enum Direction {
    Up,
    Down,
    Left,
    Right,
}

/// A key press, modeled as plain values so the key handlers can be
/// reasoned about; the terminal layer translates its own events into this.
#[derive(Clone, Copy, Debug, PartialEq, Eq)]
pub enum Key {
    Char(char),
    Enter,
    Esc,
    Tab,
    Backspace,
    Delete,
    Up,
    Down,
    Left,
    Right,
    Other,
}

} // verus!
