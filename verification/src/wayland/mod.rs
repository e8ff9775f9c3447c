//! The compositor side: what it offers, and what is known of the captures running against it.
//!
//! Three protocols, bound out of the registry by hand:
//!
//! - **`ext-image-capture-source-v1`** names *what* to capture. Only the output manager is bound.
//!   There is a per-toplevel one too, and it is deliberately unused: the compositor draws a window
//!   capture from the client's own surface tree, and the frame around a window is drawn outside
//!   that tree, so a window shot that way comes back with no titlebar. See [`crate::grab`].
//! - **`ext-image-copy-capture-v1`** negotiates buffers against a source and fills them.
//! - **`zwlr_data_control_manager_v1`** is the clipboard, without needing a seat serial or the
//!   keyboard focus. See [`crate::clipboard`].

pub mod capture;
pub mod shm;

use crate::text;
use capture::Capture;
use vstd::prelude::*;

verus! {

/// Which globals were bound, and the capture sessions running against them.
pub struct Wayland {
    /// The manager of capture sources that are outputs.
    pub output_sources: bool,
    /// The manager of capture sessions.
    pub copy: bool,
    /// The clipboard manager. Optional: a compositor without `wlr-data-control` still takes
    /// screenshots, it just cannot be asked to copy one -- which is a button to leave out
    /// rather than a reason to refuse to start.
    pub data_control: bool,
    /// One session per output, live only during the grab.
    pub captures: Vec<Capture>,
}

impl Default for Wayland {
    fn default() -> (r: Wayland)
        ensures
            !r.output_sources && !r.copy && !r.data_control,
            r.captures@.len() == 0,
    {
        Wayland { output_sources: false, copy: false, data_control: false, captures: Vec::new() }
    }
}

impl Wayland {
    /// The globals that are not there and that nothing can be captured without.
    pub open spec fn missing(self) -> Seq<Seq<char>> {
        (if self.output_sources {
            Seq::empty()
        } else {
            seq!["ext_output_image_capture_source_manager_v1"@]
        }) + (if self.copy {
            Seq::empty()
        } else {
            seq!["ext_image_copy_capture_manager_v1"@]
        })
    }

    /// What is missing that would stop a screenshot happening at all.
    ///
    /// Checked once, before anything is on screen. A compositor that does not implement these
    /// cannot be made to later, and putting a full-screen overlay up and *then* discovering
    /// there is nothing to draw on it would leave the user looking at a black rectangle with
    /// no way to know why.
    pub fn missing_globals(&self) -> (r: Vec<&'static str>)
        ensures
            text::slices_view(r@) == self.missing(),
    {
        let mut missing: Vec<&'static str> = Vec::new();
        if !self.output_sources {
            missing.push("ext_output_image_capture_source_manager_v1");
        }
        if !self.copy {
            missing.push("ext_image_copy_capture_manager_v1");
        }
        assert(text::slices_view(missing@) =~= self.missing());
        missing
    }
}

/// What is missing is what is not there, of the two that nothing can be captured without; the
/// clipboard is none of them.
pub proof fn what_is_missing_is_what_is_not_there(wayland: Wayland)
    ensures
        wayland.output_sources && wayland.copy ==> wayland.missing().len() == 0,
        !wayland.output_sources && wayland.copy ==> wayland.missing() == seq![
            "ext_output_image_capture_source_manager_v1"@,
        ],
        wayland.output_sources && !wayland.copy ==> wayland.missing() == seq![
            "ext_image_copy_capture_manager_v1"@,
        ],
        !wayland.output_sources && !wayland.copy ==> wayland.missing() == seq![
            "ext_output_image_capture_source_manager_v1"@,
            "ext_image_copy_capture_manager_v1"@,
        ],
{
}

} // verus!
