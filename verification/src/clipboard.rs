//! Putting a screenshot on the clipboard.
//!
//! ## The clipboard owner has to outlive this program
//!
//! Wayland's clipboard is pull-based. Setting a selection does not hand the compositor any
//! data; it registers *this client* as the thing to ask, and the bytes are only sent when
//! somebody pastes. So a second process is started that does nothing but hold the selection and
//! answer for it, and this one returns. That process gives up the selection when the compositor
//! says somebody else has taken it.
//!
//! [`SERVE_ARG`] turns a fresh copy of the program into that process. It is not in `--help`: it
//! is an implementation detail, not something to run by hand.

use crate::text;
use vstd::prelude::*;

verus! {

/// The one type offered. Everything that takes an image from a clipboard takes this.
pub const MIME: &'static str = "image/png";

/// The hidden argument that turns a fresh copy of this program into the clipboard owner.
pub const SERVE_ARG: &'static str = "--serve-clipboard";

/// What is asked of the clipboard owner.
#[derive(Debug)]
pub enum SourceEvent {
    /// Somebody pastes, and wants the data as this type.
    Send { mime_type: String },
    /// Somebody else took the clipboard.
    Cancelled,
    Other,
}

/// What the clipboard owner does about it.
#[derive(Debug, Clone, Copy, PartialEq, Eq, Structural)]
pub enum Reply {
    /// Write the whole image to the descriptor the consumer handed over, and close it.
    WriteImage,
    /// Close the descriptor, having written nothing: the reader sees an empty paste rather than
    /// a PNG labeled as something else.
    CloseUnwritten,
    /// Give the selection up.
    GiveUp,
    /// Nothing.
    Ignore,
}

/// The clipboard owner's whole state.
#[derive(Debug)]
pub struct Owner {
    /// The image that is answered with.
    pub png: Vec<u8>,
    /// Whether the data is no longer reachable, so that there is nothing left to hold open.
    pub done: bool,
}

/// What an event is answered with.
pub open spec fn reply_to(event: SourceEvent) -> Reply {
    match event {
        SourceEvent::Send { mime_type } => if mime_type@ == MIME@ {
            Reply::WriteImage
        } else {
            Reply::CloseUnwritten
        },
        SourceEvent::Cancelled => Reply::GiveUp,
        SourceEvent::Other => Reply::Ignore,
    }
}

impl Owner {
    /// An owner of the image that was read from stdin, if there was one.
    pub fn new(png: Vec<u8>) -> (r: Result<Owner, String>)
        ensures
            match r {
                Ok(owner) => png@.len() > 0 && owner.png@ == png@ && !owner.done,
                Err(why) => png@.len() == 0 && why@ == "no image on stdin"@,
            },
    {
        if png.len() == 0 {
            return Err("no image on stdin".to_string());
        }
        Ok(Owner { png, done: false })
    }

    /// The selection was asked for, or taken.
    pub fn event(&mut self, event: SourceEvent) -> (r: Reply)
        ensures
            r == reply_to(event),
            final(self).png@ == old(self).png@,
            final(self).done == (old(self).done || event is Cancelled),
    {
        match event {
            SourceEvent::Send { mime_type } => {
                if text::same_text(mime_type.as_str(), MIME) {
                    Reply::WriteImage
                } else {
                    Reply::CloseUnwritten
                }
            },
            SourceEvent::Cancelled => {
                self.done = true;
                Reply::GiveUp
            },
            SourceEvent::Other => Reply::Ignore,
        }
    }
}

/// A paste is answered with the image if and only if it asks for a PNG; the selection is given up
/// when somebody else takes it, and not before.
pub proof fn a_paste_gets_a_png_or_nothing(event: SourceEvent)
    ensures
        event matches SourceEvent::Send { mime_type } ==> {
            &&& mime_type@ == "image/png"@ ==> reply_to(event) is WriteImage
            &&& mime_type@ != "image/png"@ ==> reply_to(event) is CloseUnwritten
        },
        event is Cancelled <==> reply_to(event) is GiveUp,
        event is Other <==> reply_to(event) is Ignore,
{
}

} // verus!
