//! The contract with `xdg-desktop-portal-wlrix`.
//!
//! The portal backend implements `org.freedesktop.impl.portal.Screenshot` by spawning this
//! program:
//!
//! - A JSON manifest on **stdin**, closed straight after.
//! - The answer as JSON on **stdout**.
//! - The **exit code** says which happened: `0` taken, `1` canceled, anything else failed.
//!
//! The portal names the file rather than letting this program choose. A portal screenshot is
//! not one the user asked to keep -- the frontend copies it into the requesting application's
//! document store -- so it belongs in `$XDG_RUNTIME_DIR` and not in anybody's Pictures folder.

use vstd::prelude::*;

verus! {

/// `org.freedesktop.impl.portal.Screenshot`'s target values.
///
/// A single value, not a bitmask, and only the two the portal advertises ever arrive here.
/// A window and the active window are deliberately not offered: a window shot needs the
/// compositor's frame rectangle, which only reaches this program through `--select` on a
/// keybind, and there is no window picker yet.
pub const TARGET_SCREEN: u32 = 1;

pub const TARGET_AREA: u32 = 4;

/// What the portal asks for.
#[derive(Debug)]
pub struct Manifest {
    /// The application that asked, for the overlay's wording. Empty for an unsandboxed
    /// application, which is most of them.
    pub app_id: String,
    /// Whether the user gets to choose an area. The portal passes the application's
    /// `interactive` hint through, defaulting to no.
    pub interactive: bool,
    /// One of the constants above.
    pub target: u32,
    pub cursor: bool,
    /// Where to put the file. Chosen by the portal.
    pub path: String,
}

/// What this program answers.
#[derive(Debug)]
pub struct Answer<'a> {
    pub path: &'a str,
}

} // verus!
