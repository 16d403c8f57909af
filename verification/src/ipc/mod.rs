//! The connection to the desktop shell.

pub mod handler;
pub mod messages;
pub mod socket;

pub use handler::handle_shell_message;
pub use messages::{CompositorMessage, ShellMessage};
pub use socket::{
    broadcast, broadcast_idle_changed, broadcast_screen_locked, broadcast_start_menu_toggle,
    broadcast_window_closed, broadcast_window_opened, broadcast_workspace_switch, ipc_socket_path,
};
