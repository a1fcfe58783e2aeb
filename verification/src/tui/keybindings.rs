//! Key bindings as the TUI resolves them: which key, under which label,
//! triggers which action in a given focus.
use vstd::prelude::*;

verus! {

/// TUI actions that the hint strips refer to.
#[derive(Debug, Clone, Copy, PartialEq, Eq, Structural)]
pub enum Action {
    OpenHfDialog,
    ToggleHelp,
    NextFocus,
    PrevFocus,
    MoveUp,
    MoveDown,
    CycleTheme,
    Quit,
    RestartDaemon,
    KillDaemon,
    Filter,
}

/// Which binding table a lookup consults.
#[derive(Debug, Clone, Copy, PartialEq, Eq, Structural)]
pub enum Focus {
    List,
    RightPane,
}

/// The physical key of a binding, as far as hint resolution cares.
#[derive(Debug, Clone, Copy, PartialEq, Eq, Structural)]
pub enum Key {
    /// Forward tab.
    Tab,
    /// Shift+Tab.
    BackTab,
    /// Display-only entries (multi-key chords such as `gt`), never a
    /// single press.
    Null,
    /// A character key.
    Char(char),
    /// A function key.
    F(u8),
    Up,
    Down,
    Left,
    Right,
    Enter,
    Esc,
    /// Any other single key.
    Other,
}

/// One resolved binding: the action, its key and the label the UI shows
/// for that key.
#[derive(Debug)]
pub struct Binding {
    pub action: Action,
    pub key: Key,
    pub label: String,
}

/// The live binding tables the UI renders hints from.
#[derive(Debug)]
pub struct App {
    /// Bindings active while the model list has focus.
    pub list_bindings: Vec<Binding>,
    /// Bindings active while the right pane has focus.
    pub right_pane_bindings: Vec<Binding>,
}

/// The binding table for a focus.
pub open spec fn bindings_of(app: App, focus: Focus) -> Seq<Binding> {
    match focus {
        Focus::List => app.list_bindings@,
        Focus::RightPane => app.right_pane_bindings@,
    }
}

impl App {
    /// The binding table for `focus`, in priority order.
    pub fn bindings_for(&self, focus: Focus) -> (r: &Vec<Binding>)
        ensures
            r@ == bindings_of(*self, focus),
    {
        match focus {
            Focus::List => &self.list_bindings,
            Focus::RightPane => &self.right_pane_bindings,
        }
    }
}

} // verus!
