//! One capture session, by `ext-image-copy-capture-v1`.
//!
//! A *session* is opened against a source and lives as long as the thing being captured does.
//! The compositor announces what size and format of buffer it wants, and re-announces whenever
//! that changes. Against that session, a *frame* is requested one at a time: attach a buffer,
//! ask, and wait for `ready`.
//!
//! **A screenshot asks for exactly one frame and then stops.** The wait is not optional: the
//! compositor fills a pending capture frame when its backend *next draws*, and on a still screen
//! that can be a while.
//!
//! The protocol objects are the program's around this. Here is what is known of a session, and
//! what each event does to that.

use super::shm;
use crate::text;
use vstd::prelude::*;

verus! {

/// What the compositor says a buffer for this source must look like.
#[derive(Debug, Clone, Copy, PartialEq, Eq, Structural)]
pub struct Constraints {
    pub width: u32,
    pub height: u32,
    /// The format's number in `wl_shm`.
    pub format: u32,
}

impl Constraints {
    /// Whether a buffer like this can be made: its rows and the whole of it have sizes that
    /// the protocol, and this machine, can count.
    pub open spec fn fits(self) -> bool {
        &&& self.height <= i32::MAX
        &&& self.width * shm::BYTES_PER_PIXEL <= i32::MAX
        &&& shm::sizeable(self.width as int, self.height as int)
    }

    /// Whether a buffer like this can be made.
    pub fn can_be_met(self) -> (r: bool)
        ensures
            r == self.fits(),
    {
        if self.height > i32::MAX as u32 {
            return false;
        }
        let (width, pixel): (u64, u64) = (self.width as u64, shm::BYTES_PER_PIXEL as u64);
        assert(width * pixel == width * 4) by (nonlinear_arith)
            requires
                pixel == 4,
        ;
        if width * pixel > i32::MAX as u64 {
            return false;
        }
        shm::Buffer::has_size(self.width as i32, self.height as i32)
    }
}

/// How the requested frame ended.
#[derive(Debug)]
pub enum Outcome {
    /// The buffer holds a frame.
    Ready,
    /// This frame did not happen. The reason says whether retrying could help.
    Failed(String),
}

/// Constraint fields as they arrive, before the `done` that makes them a set.
#[derive(Debug, Clone, Copy, PartialEq, Eq)]
pub struct Incoming {
    pub width: u32,
    pub height: u32,
    pub format: Option<u32>,
}

/// What a session says.
#[derive(Debug, Clone, Copy, PartialEq, Eq)]
pub enum SessionEvent {
    BufferSize { width: u32, height: u32 },
    /// A format that is offered; `None` for one this program does not know.
    ShmFormat { format: Option<u32> },
    /// Everything since the last `done` is one consistent set.
    Done,
    /// The source is gone.
    Stopped,
    Other,
}

/// What a frame says.
#[derive(Debug)]
pub enum FrameEvent {
    Ready,
    Failed { reason: String },
    /// Anything else, such as a transform, which is not acted on: the compositor always captures
    /// upright.
    Other,
}

/// One capture session, against one output.
pub struct Capture {
    /// Which output this reads, by name, so a finished frame can be routed back.
    pub output_name: String,
    /// Whether the pointer is drawn into the capture.
    pub with_cursor: bool,
    /// Constraints accumulating between `done` events.
    pub incoming: Incoming,
    /// The last complete set. `None` until the first `done`.
    pub constraints: Option<Constraints>,
    /// The source is gone. Terminal.
    pub stopped: bool,
    /// Whether a frame is outstanding.
    pub frame: bool,
    /// How that frame ended, waiting to be collected.
    pub outcome: Option<Outcome>,
}

/// What is said of an output for which a set came without a format.
pub open spec fn no_format_note(output_name: Seq<char>) -> Seq<char> {
    "the compositor offered no shm format for "@ + output_name + "; it cannot be captured"@
}

impl Capture {
    /// The session after an event of its own.
    ///
    /// Of the formats in one set the first wins: the compositor lists them in its own order of
    /// preference, and both of the two it offers are 32-bit with the same channel order,
    /// differing only in whether alpha means anything.
    pub open spec fn told(self, event: SessionEvent) -> Capture {
        match event {
            SessionEvent::BufferSize { width, height } => Capture {
                incoming: Incoming { width, height, ..self.incoming },
                ..self
            },
            SessionEvent::ShmFormat { format } => if self.incoming.format is None {
                Capture { incoming: Incoming { format, ..self.incoming }, ..self }
            } else {
                self
            },
            SessionEvent::Done => match self.incoming.format {
                Some(format) => Capture {
                    constraints: Some(
                        Constraints {
                            width: self.incoming.width,
                            height: self.incoming.height,
                            format,
                        },
                    ),
                    incoming: Incoming { format: None, ..self.incoming },
                    ..self
                },
                None => self,
            },
            SessionEvent::Stopped => Capture { stopped: true, ..self },
            SessionEvent::Other => self,
        }
    }

    /// The session after an event of its frame.
    pub open spec fn landed(self, event: FrameEvent) -> Capture {
        match event {
            FrameEvent::Ready => Capture { outcome: Some(Outcome::Ready), ..self },
            FrameEvent::Failed { reason } => Capture {
                outcome: Some(Outcome::Failed(reason)),
                ..self
            },
            FrameEvent::Other => self,
        }
    }

    /// Whether asking for a frame does anything.
    pub open spec fn can_request(self) -> bool {
        !self.frame && !self.stopped
    }

    /// The session after a frame was asked for.
    pub open spec fn requested(self) -> Capture {
        if self.can_request() {
            Capture { frame: true, outcome: None, ..self }
        } else {
            self
        }
    }

    /// The session after what came of its frame has been collected.
    pub open spec fn collected(self) -> Capture {
        if self.outcome is Some {
            Capture { frame: false, outcome: None, ..self }
        } else {
            self
        }
    }

    /// A session that has just been opened.
    pub fn new(output_name: String, with_cursor: bool) -> (r: Capture)
        ensures
            r.output_name@ == output_name@,
            r.with_cursor == with_cursor,
            r.incoming == (Incoming { width: 0, height: 0, format: None }),
            r.constraints is None,
            !r.stopped,
            !r.frame,
            r.outcome is None,
    {
        Capture {
            output_name,
            with_cursor,
            incoming: Incoming { width: 0, height: 0, format: None },
            constraints: None,
            stopped: false,
            frame: false,
            outcome: None,
        }
    }

    /// Whether a frame is outstanding.
    pub fn busy(&self) -> (r: bool)
        ensures
            r == self.frame,
    {
        self.frame
    }

    /// Whether the frame this asked for has landed, one way or the other.
    ///
    /// Reads the outcome without taking it, so the grab can wait on every capture and then
    /// collect them in one pass.
    pub fn ready(&self) -> (r: bool)
        ensures
            r == (self.outcome is Some),
    {
        self.outcome.is_some()
    }

    /// Note that a frame is being asked for, and answer whether one is to be.
    ///
    /// None is if one is already outstanding or the session has stopped, so a caller driving
    /// this from the loop does not have to track either.
    pub fn request(&mut self) -> (r: bool)
        ensures
            *final(self) == old(self).requested(),
            r == old(self).can_request(),
    {
        if self.busy() || self.stopped {
            return false;
        }
        self.outcome = None;
        self.frame = true;
        true
    }

    /// Collect a finished frame, if one finished. A frame is single-use, and is done with once
    /// this has answered.
    pub fn take_outcome(&mut self) -> (r: Option<Outcome>)
        ensures
            *final(self) == old(self).collected(),
            r == old(self).outcome,
    {
        let outcome = self.outcome.take();
        if outcome.is_some() {
            self.frame = false;
        }
        outcome
    }

    /// The session said something. Answers with what is worth saying about that.
    pub fn session_event(&mut self, event: SessionEvent) -> (r: Option<String>)
        ensures
            *final(self) == old(self).told(event),
            text::optional_view(r) == (if event is Done && old(self).incoming.format is None {
                Some(no_format_note(old(self).output_name@))
            } else {
                None
            }),
    {
        match event {
            SessionEvent::BufferSize { width, height } => {
                self.incoming.width = width;
                self.incoming.height = height;
            },
            SessionEvent::ShmFormat { format } => {
                if self.incoming.format.is_none() {
                    self.incoming.format = format;
                }
            },
            SessionEvent::Done => {
                let Some(format) = self.incoming.format else {
                    let mut note = text::concat(
                        "the compositor offered no shm format for ",
                        self.output_name.as_str(),
                    );
                    note.append("; it cannot be captured");
                    return Some(note);
                };
                self.constraints = Some(
                    Constraints {
                        width: self.incoming.width,
                        height: self.incoming.height,
                        format,
                    },
                );
                self.incoming.format = None;
            },
            SessionEvent::Stopped => {
                self.stopped = true;
            },
            SessionEvent::Other => {},
        }
        None
    }

    /// The frame said something.
    pub fn frame_event(&mut self, event: FrameEvent)
        ensures
            *final(self) == old(self).landed(event),
    {
        match event {
            FrameEvent::Ready => {
                self.outcome = Some(Outcome::Ready);
            },
            FrameEvent::Failed { reason } => {
                self.outcome = Some(Outcome::Failed(reason));
            },
            FrameEvent::Other => {},
        }
    }
}

/// A screenshot asks for exactly one frame: once one is outstanding, asking again does nothing,
/// until its outcome has been collected.
pub proof fn one_frame_at_a_time(capture: Capture, event: FrameEvent)
    ensures
        !capture.requested().can_request(),
        capture.requested().requested() == capture.requested(),
        capture.can_request() ==> !capture.requested().landed(event).can_request(),
{
}

/// Nothing is ever captured from a session that has stopped, and a session that has stopped
/// stays stopped.
pub proof fn a_stopped_session_stays_stopped(
    capture: Capture,
    session_event: SessionEvent,
    frame_event: FrameEvent,
)
    requires
        capture.stopped,
    ensures
        !capture.can_request(),
        capture.requested() == capture,
        capture.told(session_event).stopped,
        capture.landed(frame_event).stopped,
        capture.collected().stopped,
{
}

/// The constraints change only with a complete set, which is one that a `done` ends and that has
/// a format; they are then the size last announced and the first format offered.
pub proof fn constraints_come_in_complete_sets(
    capture: Capture,
    width: u32,
    height: u32,
    first: u32,
    second: Option<u32>,
)
    requires
        capture.incoming.format is None,
    ensures
        ({
            let size = SessionEvent::BufferSize { width, height };
            let formats = capture.told(size).told(
                SessionEvent::ShmFormat { format: Some(first) },
            ).told(SessionEvent::ShmFormat { format: second });
            &&& formats.constraints == capture.constraints
            &&& formats.told(SessionEvent::Done).constraints == Some(
                Constraints { width, height, format: first },
            )
            &&& formats.told(SessionEvent::Done).told(SessionEvent::Done).constraints
                == formats.told(SessionEvent::Done).constraints
            &&& capture.told(SessionEvent::Done).constraints == capture.constraints
        }),
{
}

/// What each event of a session changes: its size, its format where none has been offered since the
/// last complete set, its constraints where a set is complete, or that it has ended. Nothing else
/// about it changes, and neither does its frame.
pub proof fn a_session_is_told_one_thing_at_a_time(
    capture: Capture,
    event: SessionEvent,
)
    ensures
        ({
            let after = capture.told(event);
            &&& after.output_name == capture.output_name
            &&& after.with_cursor == capture.with_cursor
            &&& after.frame == capture.frame
            &&& after.outcome == capture.outcome
            &&& after.stopped == (capture.stopped || event is Stopped)
            &&& match event {
                SessionEvent::BufferSize { width, height } => after.incoming.width == width
                    && after.incoming.height == height,
                _ => after.incoming.width == capture.incoming.width && after.incoming.height
                    == capture.incoming.height,
            }
            &&& match event {
                SessionEvent::ShmFormat { format } => after.incoming.format == (
                if capture.incoming.format is Some {
                    capture.incoming.format
                } else {
                    format
                }),
                SessionEvent::Done => after.incoming.format is None,
                _ => after.incoming.format == capture.incoming.format,
            }
            &&& event is Done && capture.incoming.format is Some ==> after.constraints == Some(
                Constraints {
                    width: capture.incoming.width,
                    height: capture.incoming.height,
                    format: capture.incoming.format->0,
                },
            )
            &&& !(event is Done) || capture.incoming.format is None ==> after.constraints
                == capture.constraints
        }),
{
}

/// What becomes of a frame: asking for one leaves it outstanding, with nothing come of it yet; what
/// it says is what came of it; and collecting that leaves none outstanding. Nothing else about the
/// session changes.
pub proof fn a_frame_is_asked_for_lands_and_is_collected(capture: Capture, reason: String)
    ensures
        capture.can_request() <==> !capture.frame && !capture.stopped,
        capture.can_request() ==> capture.requested() == (Capture {
            frame: true,
            outcome: None,
            ..capture
        }),
        !capture.can_request() ==> capture.requested() == capture,
        capture.landed(FrameEvent::Ready) == (Capture { outcome: Some(Outcome::Ready), ..capture }),
        capture.landed(FrameEvent::Failed { reason }) == (Capture {
            outcome: Some(Outcome::Failed(reason)),
            ..capture
        }),
        capture.landed(FrameEvent::Other) == capture,
        capture.outcome is Some ==> capture.collected() == (Capture {
            frame: false,
            outcome: None,
            ..capture
        }),
        capture.outcome is None ==> capture.collected() == capture,
{
}

/// A buffer can be made where its height, the bytes of its rows and those of the whole of it can be
/// counted.
pub proof fn what_can_be_met(constraints: Constraints)
    ensures
        constraints.fits() <==> constraints.height <= 0x7fff_ffff && 4 * constraints.width
            <= 0x7fff_ffff && 4 * (constraints.width * constraints.height) <= usize::MAX,
{
    let (w, h, pixel) = (
        constraints.width as int,
        constraints.height as int,
        shm::BYTES_PER_PIXEL as int,
    );
    shm::an_image_is_four_bytes_a_pixel(w, h);
    assert(w * pixel == 4 * w) by (nonlinear_arith)
        requires
            pixel == 4,
    ;
}

/// What is said of an output without a format names the output.
pub proof fn what_is_said_without_a_format(name: Seq<char>)
    ensures
        no_format_note(name) == "the compositor offered no shm format for "@ + name
            + "; it cannot be captured"@,
{
}

} // verus!
