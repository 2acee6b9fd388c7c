//! Tray state, menus and events for a cross-platform system tray.

pub mod click;
pub mod dbus_menu;
pub mod dbus_menu_laws;
pub mod error;
pub mod handle;
pub mod linux;
pub mod macos;
pub mod menu_item;
pub mod menu_laws;
pub mod native_menu;
pub mod pixmap;
pub mod runtime;
pub mod runtime_laws;
pub mod state;
pub mod text;
pub mod variant;
pub mod windows;

pub use click::{
    MouseButton, Point, TargetOs, TrayClickAction, TrayClickKind, TrayClickPolicy, TrayEvent,
};
pub use error::TrayError;
pub use handle::{set_up_tray, TrayHandle, TraySlot};
pub use menu_item::{TrayMenuItem, TrayMenuItemRole, TrayToggleType};
pub use state::{LogicalPoints, TrayImage, TrayState};
