//! What the tray icon shows and offers.
use vstd::prelude::*;

use crate::text::{has_prefix, str_starts_with};

verus! {

/// A request from the tray menu.
#[derive(Debug, Clone, Copy, PartialEq, Eq, Structural)]
pub enum TrayEvent {
    ShowWindow,
    HideWindow,
    Quit,
}

/// Label of the menu entry that shows the window.
pub const MENU_SHOW_WINDOW: &'static str = "Show Window";

/// Label of the menu entry that hides the window.
pub const MENU_HIDE_WINDOW: &'static str = "Hide Window";

/// Label of the menu entry that quits.
pub const MENU_QUIT: &'static str = "Quit";

/// The icon of the application, when installed, else a generic microphone.
pub open spec fn icon_name_spec(app_icon_installed: bool) -> Seq<char> {
    if app_icon_installed {
        "vdora"@
    } else {
        "audio-input-microphone-symbolic"@
    }
}

/// The tray's base icon, given whether the application's own icon is
/// installed.
pub fn resolve_icon_name(app_icon_installed: bool) -> (r: String)
    ensures
        r@ == icon_name_spec(app_icon_installed),
{
    if app_icon_installed {
        String::from_str("vdora")
    } else {
        String::from_str("audio-input-microphone-symbolic")
    }
}

/// The icon shown for a status: a record icon while recording, else the base
/// icon.
pub open spec fn status_icon(base_icon_name: Seq<char>, status: Seq<char>) -> Seq<char> {
    if has_prefix(status, "Recording"@) {
        "media-record-symbolic"@
    } else {
        base_icon_name
    }
}

pub fn icon_name_for_status(base_icon_name: &str, status: &str) -> (r: String)
    ensures
        r@ == status_icon(base_icon_name@, status@),
{
    if str_starts_with(status, "Recording") {
        String::from_str("media-record-symbolic")
    } else {
        String::from_str(base_icon_name)
    }
}

/// The tool tip text of the tray icon for a status.
pub fn tool_tip_description(status: &str) -> (r: String)
    ensures
        r@ == "Status: "@ + status@,
{
    crate::text::concat_str("Status: ", status)
}

} // verus!
