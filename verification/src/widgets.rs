//! The leaf widgets and the container views of the toolkit.

pub mod button;
pub mod checkboxes;
pub mod dialog;
pub mod dropdownmenu;
pub mod footerbar;
pub mod inputline;
pub mod label;
pub mod menu;
pub mod listbox;
pub mod menubar;
pub mod radiobuttons;
pub mod root;
pub mod statusline;
