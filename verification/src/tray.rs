//! The system tray entry.
use vstd::prelude::*;

verus! {

/// Messages sent from the system tray to the main application thread.
#[derive(Clone, Copy, Debug, PartialEq, Eq, Structural)]
pub enum TrayMessage {
    Show,
    QuitAndDisconnect,
}

/// The application id, also the tray entry's id.
pub const APP_ID: &'static str = "com.lenscast.app";

/// The icon of the tray entry.
pub const TRAY_ICON: &'static str = "camera-web";

/// The title of the tray entry.
pub const TRAY_TITLE: &'static str = "LensCast";

} // verus!
