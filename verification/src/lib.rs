//! Selective pointer-event transparency for overlay windows.
//!
//! A click-through window lets every pointer event fall to whatever lies
//! beneath it, which also starves its own rendering surface of the move
//! events that hover feedback depends on. This crate holds the bookkeeping
//! and the decisions that bring those move events back: which surfaces are
//! enrolled, when the single process-wide pointer hook has to be installed
//! or removed, which child window is the rendering surface, and which
//! synthetic move messages one observed pointer event gives rise to.
//!
//! Nothing here touches the operating system. The caller enumerates windows,
//! installs hooks, queries rectangles and posts messages, and passes plain
//! values in and out.

pub mod forwarding;
pub mod geometry;
pub mod locator;
pub mod message;
pub mod registry;

pub use forwarding::{set_forward_mouse_messages, set_ignore_mouse_events, Forwarding, HookAction};
pub use geometry::{Point, Rect};
pub use locator::{find_child_window, ChildWindow, SURFACE_CLASS};
pub use message::{is_pointer_move, make_lparam, mouse_hook, MoveMessage, Probe, WM_MOUSEMOVE};
pub use registry::Registry;
