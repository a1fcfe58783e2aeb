//! Terminal UI text logic: key bindings, hint fitting and the title-row
//! global hint strip.
pub mod help_bar;
pub mod hint_picker;
pub mod keybindings;
