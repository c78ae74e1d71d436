//! Rendering and interaction core of a text-mode widget toolkit: a tree of
//! composable views sharing one character-cell screen buffer, a focus chain
//! that routes keyboard input, and a command queue that views post into.

pub mod app;
pub mod event;
pub mod focus;
pub mod rect;
pub mod screenbuffer;
pub mod text;
pub mod view;
pub mod widgets;

pub use app::TApplication;
pub use event::TEvent;
pub use event::TEventQueue;
pub use event::TKeyCode;
pub use event::TKeyEvent;
pub use event::TMouseEvent;
pub use focus::FocusManager;
pub use rect::TPoint;
pub use rect::TRect;
pub use view::TView;
