//! Freezing the screen: one capture per monitor, before anything is drawn over it.
//!
//! This runs before the overlay exists. The order is not incidental -- the overlay shows the
//! frozen desktop, so it has to be frozen first, or the picture would contain the dialog asking
//! about it.
//!
//! ## Every mode captures whole outputs
//!
//! Even "the active window", which arrives as a rectangle on the command line from the
//! compositor, which knows the focused window and owns the geometry of its frame. One capture
//! path, and the frame comes out right by construction.
//!
//! ## Why there is a deadline
//!
//! A monitor that is *asleep* is never drawn, so its capture would never complete and this would
//! wait forever with nothing on screen to say why. After [`DEADLINE_SECS`] the shot is built from
//! whatever arrived.
//!
//! The program around this talks to the compositor. What it asks for, how long it waits and what
//! the frozen desktop is made of is decided here.

use crate::geometry::Rect;
use crate::shot::{Region, Shot};
use crate::text;
use crate::ui;
use crate::ui::{App, OutputInfo};
use crate::wayland::capture::{Capture, Incoming, Outcome};
use crate::wayland::shm;
use crate::wayland::shm::Buffer;
use crate::wayland::Wayland;
use vstd::prelude::*;

verus! {

/// How long to wait for the compositor before giving up on an output, in seconds.
///
/// Generously long for something that normally takes one repaint. This is not a frame budget;
/// it is the bound that keeps a sleeping monitor from hanging the program.
pub const DEADLINE_SECS: u64 = 2;

/// What a monitor is called that has no name.
pub const UNNAMED: &'static str = "an unnamed monitor";

/// Whether a session has just been opened for the monitor `output`.
pub open spec fn opened(capture: Capture, output: Option<OutputInfo>, cursor: bool) -> bool {
    &&& capture.output_name@ == (match ui::name_of(output) {
        Some(name) => name,
        None => UNNAMED@,
    })
    &&& capture.with_cursor == cursor
    &&& capture.incoming == (Incoming { width: 0, height: 0, format: None })
    &&& capture.constraints is None
    &&& !capture.stopped
    &&& !capture.frame
    &&& capture.outcome is None
}

/// Why no session can be opened: the compositor lacks what it takes, or has no monitor at all.
pub open spec fn sessions_error(missing: Seq<Seq<char>>, captures: nat) -> Option<Seq<char>> {
    if missing.len() > 0 {
        Some(
            "the compositor does not implement "@ + text::joined(missing, ", "@)
                + " -- it cannot be captured"@,
        )
    } else if captures == 0 {
        Some("the compositor reported no monitors"@)
    } else {
        None
    }
}

/// Open a capture session against every output.
pub fn open_sessions(app: &App, wayland: &mut Wayland, cursor: bool) -> (r: Result<(), String>)
    ensures
        final(wayland).output_sources == old(wayland).output_sources,
        final(wayland).copy == old(wayland).copy,
        final(wayland).data_control == old(wayland).data_control,
        old(wayland).missing().len() > 0 ==> final(wayland).captures@ == old(wayland).captures@,
        old(wayland).missing().len() == 0 ==> {
            let before = old(wayland).captures@;
            let after = final(wayland).captures@;
            &&& after.len() == before.len() + app@.outputs.len()
            &&& after.take(before.len() as int) == before
            &&& forall|i: int|
                0 <= i < app@.outputs.len() ==> opened(
                    #[trigger] after[before.len() + i],
                    app@.outputs[i],
                    cursor,
                )
        },
        (match r {
            Ok(()) => None,
            Err(why) => Some(why@),
        }) == sessions_error(old(wayland).missing(), final(wayland).captures@.len()),
{
    let missing = wayland.missing_globals();
    assert(text::slices_view(missing@).len() == missing@.len());
    if missing.len() > 0 {
        let mut why = text::concat(
            "the compositor does not implement ",
            text::join(&missing, ", ").as_str(),
        );
        why.append(" -- it cannot be captured");
        return Err(why);
    }
    let ghost before = wayland.captures@;
    let ghost (output_sources, copy, data_control) = (
        wayland.output_sources,
        wayland.copy,
        wayland.data_control,
    );
    let count: usize = app.output_count();
    let mut i: usize = 0;
    while i < count
        invariant
            i <= count,
            count == app@.outputs.len(),
            wayland.output_sources == output_sources,
            wayland.copy == copy,
            wayland.data_control == data_control,
            wayland.captures@.len() == before.len() + i,
            wayland.captures@.take(before.len() as int) == before,
            forall|j: int|
                0 <= j < i ==> opened(
                    #[trigger] wayland.captures@[before.len() + j],
                    app@.outputs[j],
                    cursor,
                ),
        decreases count - i,
    {
        let name = match app.output_name(i) {
            Some(name) => name,
            None => UNNAMED.to_string(),
        };
        let ghost grown = wayland.captures@;
        let capture = Capture::new(name, cursor);
        wayland.captures.push(capture);
        assert(wayland.captures@.take(before.len() as int) == grown.take(before.len() as int));
        assert forall|j: int| 0 <= j < i + 1 implies opened(
            #[trigger] wayland.captures@[before.len() + j],
            app@.outputs[j],
            cursor,
        ) by {
            if j < i {
                assert(wayland.captures@[before.len() + j] == grown[before.len() + j]);
            }
        }
        i += 1;
    }
    if wayland.captures.len() == 0 {
        return Err("the compositor reported no monitors".to_string());
    }
    Ok(())
}

/// Whether the compositor has said, for every session, what buffer it wants, or has ended it.
pub fn constrained(wayland: &Wayland) -> (r: bool)
    ensures
        r == forall|i: int|
            0 <= i < wayland.captures@.len() ==> (#[trigger] wayland.captures@[i]).constraints
                is Some || wayland.captures@[i].stopped,
{
    let mut i: usize = 0;
    while i < wayland.captures.len()
        invariant
            i <= wayland.captures@.len(),
            forall|j: int|
                0 <= j < i ==> (#[trigger] wayland.captures@[j]).constraints is Some
                    || wayland.captures@[j].stopped,
        decreases wayland.captures@.len() - i,
    {
        if wayland.captures[i].constraints.is_none() && !wayland.captures[i].stopped {
            return false;
        }
        i += 1;
    }
    true
}

/// Whether every frame has landed, one way or the other, or its session has ended.
pub fn landed(wayland: &Wayland) -> (r: bool)
    ensures
        r == forall|i: int|
            0 <= i < wayland.captures@.len() ==> (#[trigger] wayland.captures@[i]).outcome is Some
                || wayland.captures@[i].stopped,
{
    let mut i: usize = 0;
    while i < wayland.captures.len()
        invariant
            i <= wayland.captures@.len(),
            forall|j: int|
                0 <= j < i ==> (#[trigger] wayland.captures@[j]).outcome is Some
                    || wayland.captures@[j].stopped,
        decreases wayland.captures@.len() - i,
    {
        if !wayland.captures[i].ready() && !wayland.captures[i].stopped {
            return false;
        }
        i += 1;
    }
    true
}

/// What came of the last thing that was done while waiting for the compositor.
pub enum SettleEvent {
    /// The queued events were dispatched. `done` is whether what is waited for is there, and
    /// `in_time` whether the deadline has not passed yet.
    Dispatched { done: bool, in_time: bool },
    DispatchFailed(String),
    /// A read was prepared, which cannot be done while events are queued.
    Prepared { queued: bool },
    FlushFailed(String),
    /// The connection was polled for the time that is left.
    Polled { readable: bool },
    PollInterrupted,
    PollFailed(String),
    Read,
    ReadFailed(String),
}

/// What to do next while waiting for the compositor.
pub enum SettleAction {
    /// Dispatch the queued events.
    Dispatch,
    /// Prepare a read.
    Prepare,
    /// Send what is waiting to be sent, and poll the connection for the time that is left.
    Poll,
    /// Take the events that have arrived.
    Read,
    /// Stop waiting.
    Stop,
    /// Stop, and say why.
    Fail(String),
}

/// Whether `action` is what follows `event`.
pub open spec fn settles(event: SettleEvent, action: SettleAction) -> bool {
    match event {
        SettleEvent::Dispatched { done, in_time } => if done || !in_time {
            action is Stop
        } else {
            action is Prepare
        },
        SettleEvent::DispatchFailed(err) => action matches SettleAction::Fail(why) && why@
            == "lost the compositor while capturing: "@ + err@,
        SettleEvent::Prepared { queued } => if queued {
            action is Dispatch
        } else {
            action is Poll
        },
        SettleEvent::FlushFailed(err) => action matches SettleAction::Fail(why) && why@
            == "could not talk to the compositor: "@ + err@,
        SettleEvent::Polled { readable } => if readable {
            action is Read
        } else {
            action is Stop
        },
        SettleEvent::PollInterrupted => action is Dispatch,
        SettleEvent::PollFailed(err) => action matches SettleAction::Fail(why) && why@
            == "could not wait on the compositor: "@ + err@,
        SettleEvent::Read => action is Dispatch,
        SettleEvent::ReadFailed(err) => action matches SettleAction::Fail(why) && why@
            == "lost the compositor while capturing: "@ + err@,
    }
}

/// One step of waiting until something is there, or until the deadline passes.
///
/// The read is prepared, the connection is polled with the time that is left, and only then are
/// events taken. Waiting for an event is the obvious way to do this and cannot be bounded: a
/// compositor that sends nothing at all -- which is exactly the sleeping-monitor case
/// [`DEADLINE_SECS`] exists for -- would never return. Running out of time is not an error:
/// [`collect`] leaves out whatever did not arrive, and says which.
pub fn settle(event: SettleEvent) -> (r: SettleAction)
    ensures
        settles(event, r),
{
    match event {
        SettleEvent::Dispatched { done, in_time } => {
            if done || !in_time {
                SettleAction::Stop
            } else {
                SettleAction::Prepare
            }
        },
        SettleEvent::DispatchFailed(err) => SettleAction::Fail(
            text::concat("lost the compositor while capturing: ", err.as_str()),
        ),
        SettleEvent::Prepared { queued } => {
            if queued {
                SettleAction::Dispatch
            } else {
                SettleAction::Poll
            }
        },
        SettleEvent::FlushFailed(err) => SettleAction::Fail(
            text::concat("could not talk to the compositor: ", err.as_str()),
        ),
        SettleEvent::Polled { readable } => {
            if readable {
                SettleAction::Read
            } else {
                SettleAction::Stop
            }
        },
        SettleEvent::PollInterrupted => SettleAction::Dispatch,
        SettleEvent::PollFailed(err) => SettleAction::Fail(
            text::concat("could not wait on the compositor: ", err.as_str()),
        ),
        SettleEvent::Read => SettleAction::Dispatch,
        SettleEvent::ReadFailed(err) => SettleAction::Fail(
            text::concat("lost the compositor while capturing: ", err.as_str()),
        ),
    }
}

/// The buffer to ask for a frame into, once the compositor has said what it wants.
pub fn buffer_for(capture: &Capture) -> (r: Option<Buffer>)
    requires
        capture.constraints matches Some(constraints) ==> constraints.fits(),
    ensures
        match capture.constraints {
            Some(constraints) => r matches Some(buffer) && {
                &&& buffer.width == constraints.width
                &&& buffer.height == constraints.height
                &&& buffer.stride == constraints.width * shm::BYTES_PER_PIXEL
                &&& buffer.size == shm::image_bytes(
                    constraints.width as int,
                    constraints.height as int,
                )
            },
            None => r is None,
        },
{
    match capture.constraints {
        Some(constraints) => Some(Buffer::new(constraints)),
        None => None,
    }
}

/// What is said of a capture for which there is no memory.
pub fn no_room(capture: &Capture, err: &str) -> (r: String)
    ensures
        r@ == "no room for "@ + capture.output_name@ + ": "@ + err@,
{
    let mut note = text::concat("no room for ", capture.output_name.as_str());
    note.append(": ");
    note.append(err);
    note
}

/// What became of one capture.
pub enum Collected {
    /// There was nothing to collect.
    Nothing,
    /// It was lost; what to say about that.
    Note(String),
    /// The buffer holds the part of the desktop at `rect`; what to say about that part, if
    /// anything.
    Take { rect: Rect, warning: Option<String> },
}

/// What becomes of one capture.
pub enum Collecting {
    Nothing,
    Note(Seq<char>),
    Take { rect: Rect, warning: Option<Seq<char>> },
}

impl View for Collected {
    type V = Collecting;

    open spec fn view(&self) -> Collecting {
        match *self {
            Collected::Nothing => Collecting::Nothing,
            Collected::Note(note) => Collecting::Note(note@),
            Collected::Take { rect, warning } => Collecting::Take {
                rect,
                warning: text::optional_view(warning),
            },
        }
    }
}

/// What becomes of a capture, given the layout of the monitors and whether it has a buffer.
pub open spec fn collecting(
    outputs: Seq<Option<OutputInfo>>,
    capture: Capture,
    held: bool,
) -> Collecting {
    let name = capture.output_name@;
    match capture.constraints {
        Some(constraints) if held => match capture.outcome {
            None => Collecting::Note(name + " did not answer in time; leaving it out"@),
            Some(Outcome::Failed(reason)) => Collecting::Note(
                name + " could not be captured: "@ + reason@,
            ),
            Some(Outcome::Ready) => match ui::first_named(outputs, name) {
                None => Collecting::Note(name + " has no place in the layout; leaving it out"@),
                Some(info) => {
                    let (w, h) = (constraints.width as i32, constraints.height as i32);
                    Collecting::Take {
                        rect: Rect { x: info.place().0, y: info.place().1, w, h },
                        warning: ui::warning(outputs, name, w, h),
                    }
                },
            },
        },
        _ => Collecting::Nothing,
    }
}

/// Collect one capture.
fn collect_one(app: &App, capture: &mut Capture, held: bool) -> (r: Collected)
    ensures
        r@ == collecting(app@.outputs, *old(capture), held),
{
    let Some(constraints) = capture.constraints else {
        return Collected::Nothing;
    };
    if !held {
        return Collected::Nothing;
    }
    match capture.take_outcome() {
        None => Collected::Note(
            text::concat(
                capture.output_name.as_str(),
                " did not answer in time; leaving it out",
            ),
        ),
        Some(Outcome::Failed(reason)) => {
            let mut note = text::concat(
                capture.output_name.as_str(),
                " could not be captured: ",
            );
            note.append(reason.as_str());
            Collected::Note(note)
        },
        Some(Outcome::Ready) => match app.output_origin(capture.output_name.as_str()) {
            None => Collected::Note(
                text::concat(
                    capture.output_name.as_str(),
                    " has no place in the layout; leaving it out",
                ),
            ),
            Some(origin) => {
                let w: i32 = #[verifier::truncate] (constraints.width as i32);
                let h: i32 = #[verifier::truncate] (constraints.height as i32);
                let warning = app.warn_if_scaled(capture.output_name.as_str(), w, h);
                Collected::Take { rect: Rect::new(origin.0, origin.1, w, h), warning }
            },
        },
    }
}

/// Decide what the finished frames are to the frozen desktop. `held` says of each capture whether
/// it has a buffer.
///
/// The sessions are finished with afterwards, so that the compositor stops capturing the moment
/// the overlay goes up.
pub fn collect(app: &App, wayland: &mut Wayland, held: &Vec<bool>) -> (r: Vec<Collected>)
    ensures
        r@.len() == held@.len(),
        forall|i: int|
            0 <= i < held@.len() ==> (#[trigger] r@[i])@ == (if i < old(wayland).captures@.len() {
                collecting(app@.outputs, old(wayland).captures@[i], held@[i])
            } else {
                Collecting::Nothing
            }),
        final(wayland).captures@.len() == 0,
        final(wayland).output_sources == old(wayland).output_sources,
        final(wayland).copy == old(wayland).copy,
        final(wayland).data_control == old(wayland).data_control,
{
    let ghost before = wayland.captures@;
    let ghost (output_sources, copy, data_control) = (
        wayland.output_sources,
        wayland.copy,
        wayland.data_control,
    );
    let mut all: Vec<Collected> = Vec::new();
    let mut i: usize = 0;
    while i < held.len()
        invariant
            i <= held@.len(),
            all@.len() == i,
            wayland.captures@.len() == before.len(),
            wayland.output_sources == output_sources,
            wayland.copy == copy,
            wayland.data_control == data_control,
            forall|j: int| i <= j < before.len() ==> wayland.captures@[j] == #[trigger] before[j],
            forall|j: int|
                0 <= j < i ==> (#[trigger] all@[j])@ == (if j < before.len() {
                    collecting(app@.outputs, before[j], held@[j])
                } else {
                    Collecting::Nothing
                }),
        decreases held@.len() - i,
    {
        if i < wayland.captures.len() {
            assert(wayland.captures@[i as int] == before[i as int]);
            let one = collect_one(app, &mut wayland.captures[i], held[i]);
            all.push(one);
        } else {
            all.push(Collected::Nothing);
        }
        i += 1;
    }
    wayland.captures.clear();
    all
}

/// The frozen desktop, made of the parts that were captured.
///
/// Fails only when there is nothing at all to show. One output out of two failing is not an
/// error -- the shot covers the rest, because a screenshot of one screen beats no screenshot at
/// all.
pub fn assemble(regions: Vec<Region>) -> (r: Result<Shot, String>)
    ensures
        match r {
            Ok(shot) => regions@.len() > 0 && shot.regions@ == regions@,
            Err(why) => regions@.len() == 0 && why@
                == "nothing could be captured; is any monitor awake?"@,
        },
{
    if regions.len() == 0 {
        return Err("nothing could be captured; is any monitor awake?".to_string());
    }
    Ok(Shot { regions })
}

/// What becomes of each capture.
pub open spec fn collecting_all(
    outputs: Seq<Option<OutputInfo>>,
    captures: Seq<Capture>,
    held: Seq<bool>,
) -> Seq<Collecting> {
    Seq::new(
        held.len(),
        |i: int|
            if i < captures.len() {
                collecting(outputs, captures[i], held[i])
            } else {
                Collecting::Nothing
            },
    )
}

/// The views of what became of each capture.
pub open spec fn collected_view(collected: Seq<Collected>) -> Seq<Collecting> {
    Seq::new(collected.len(), |i: int| collected[i]@)
}

/// The views of a vector of byte vectors.
pub open spec fn bytes_view(bytes: Seq<Vec<u8>>) -> Seq<Seq<u8>> {
    Seq::new(bytes.len(), |i: int| bytes[i]@)
}

/// The parts of a desktop, each by where it is and by its bytes.
pub open spec fn regions_view(regions: Seq<Region>) -> Seq<(Rect, Seq<u8>)> {
    Seq::new(regions.len(), |i: int| (regions[i].rect, regions[i].pixels@))
}

/// Whether `bytes` hold an image of this size.
pub open spec fn enough(rect: Rect, bytes: Seq<u8>) -> bool {
    shm::sizeable(rect.w as int, rect.h as int) && shm::image_bytes(rect.w as int, rect.h as int)
        <= bytes.len()
}

/// The part of the desktop that one capture is, given the bytes of its buffer.
pub open spec fn part_of(collecting: Collecting, bytes: Seq<u8>) -> Option<(Rect, Seq<u8>)> {
    match collecting {
        Collecting::Take { rect, .. } if enough(rect, bytes) => Some(
            (rect, bytes.take(shm::image_bytes(rect.w as int, rect.h as int))),
        ),
        _ => None,
    }
}

/// The parts of the desktop that the captures are, in their order, given the bytes of each buffer.
pub open spec fn parts_of(collecting: Seq<Collecting>, pixels: Seq<Seq<u8>>) -> Seq<
    (Rect, Seq<u8>),
>
    decreases collecting.len(),
{
    if collecting.len() == 0 {
        Seq::empty()
    } else {
        let before = parts_of(collecting.drop_last(), pixels);
        if collecting.len() <= pixels.len() {
            match part_of(collecting.last(), pixels[collecting.len() - 1]) {
                Some(part) => before.push(part),
                None => before,
            }
        } else {
            before
        }
    }
}

/// What is worth saying about one capture.
pub open spec fn said_of(collecting: Collecting) -> Option<Seq<char>> {
    match collecting {
        Collecting::Nothing => None,
        Collecting::Note(note) => Some(note),
        Collecting::Take { warning, .. } => warning,
    }
}

/// What is worth saying about the captures, in their order.
pub open spec fn said_of_all(collecting: Seq<Collecting>) -> Seq<Seq<char>>
    decreases collecting.len(),
{
    if collecting.len() == 0 {
        Seq::empty()
    } else {
        let before = said_of_all(collecting.drop_last());
        match said_of(collecting.last()) {
            Some(note) => before.push(note),
            None => before,
        }
    }
}

/// The first bytes of a buffer.
fn first_bytes(bytes: &Vec<u8>, n: usize) -> (r: Vec<u8>)
    requires
        n <= bytes@.len(),
    ensures
        r@ == bytes@.take(n as int),
{
    let mut r: Vec<u8> = Vec::new();
    let mut i: usize = 0;
    while i < n
        invariant
            i <= n <= bytes@.len(),
            r@ == bytes@.take(i as int),
        decreases n - i,
    {
        r.push(bytes[i]);
        assert(bytes@.take(i + 1) == bytes@.take(i as int).push(bytes@[i as int]));
        i += 1;
    }
    r
}

/// The parts that the frozen desktop is made of: one for each capture that is to be taken and
/// whose buffer holds an image of its size, in the order of the captures. `pixels` are the bytes
/// of each capture's buffer, of which those past the image are left out.
pub fn regions_of(collected: &Vec<Collected>, pixels: Vec<Vec<u8>>) -> (r: Vec<Region>)
    ensures
        regions_view(r@) == parts_of(collected_view(collected@), bytes_view(pixels@)),
{
    let ghost (all, bytes) = (collected_view(collected@), bytes_view(pixels@));
    let mut regions: Vec<Region> = Vec::new();
    let mut i: usize = 0;
    assert(all.take(0) == Seq::<Collecting>::empty());
    assert(regions_view(regions@) == Seq::<(Rect, Seq<u8>)>::empty());
    while i < collected.len()
        invariant
            i <= collected@.len(),
            all == collected_view(collected@),
            bytes == bytes_view(pixels@),
            regions_view(regions@) == parts_of(all.take(i as int), bytes),
        decreases collected@.len() - i,
    {
        assert(all.take(i + 1).drop_last() == all.take(i as int));
        assert(all.take(i + 1).last() == collected@[i as int]@);
        if i < pixels.len() {
            assert(bytes[i as int] == pixels@[i as int]@);
            if let Collected::Take { rect, .. } = &collected[i] {
                let rect: Rect = *rect;
                if Buffer::has_size(rect.w, rect.h) {
                    let size: usize = Buffer::size_for(rect.w, rect.h);
                    if size <= pixels[i].len() {
                        let ghost before = regions_view(regions@);
                        let region = Region { rect, pixels: first_bytes(&pixels[i], size) };
                        let ghost part = (region.rect, region.pixels@);
                        regions.push(region);
                        assert(regions_view(regions@) == before.push(part));
                    }
                }
            }
        }
        i += 1;
    }
    assert(all.take(i as int) == all);
    regions
}

/// Whether `pixels` can be what `read` gave for the captures that are to be taken.
pub open spec fn read_by<F: Fn(usize) -> Vec<u8>>(
    read: F,
    collecting: Seq<Collecting>,
    pixels: Seq<Vec<u8>>,
) -> bool {
    &&& pixels.len() == collecting.len()
    &&& forall|i: int|
        0 <= i < collecting.len() && collecting[i] is Take ==> call_ensures(
            read,
            (i as usize,),
            #[trigger] pixels[i],
        )
}

/// Turn the finished frames into the frozen desktop, and say what is worth saying about them.
///
/// `read` gives the bytes of a capture's buffer. It is asked only about captures whose frame is
/// ready: before that the compositor may be writing, and a torn image is the best case.
pub fn freeze<F: Fn(usize) -> Vec<u8>>(
    app: &App,
    wayland: &mut Wayland,
    held: &Vec<bool>,
    read: F,
) -> (r: (Result<Shot, String>, Vec<String>))
    requires
        forall|i: usize|
            i < held@.len() && collecting_all(
                app@.outputs,
                old(wayland).captures@,
                held@,
            )[i as int] is Take ==> #[trigger] call_requires(read, (i,)),
    ensures
        ({
            let collecting = collecting_all(app@.outputs, old(wayland).captures@, held@);
            &&& text::strings_view(r.1@) == said_of_all(collecting)
            &&& exists|pixels: Seq<Vec<u8>>| #[trigger]
                read_by(read, collecting, pixels) && shot_is(
                    r.0,
                    parts_of(collecting, bytes_view(pixels)),
                )
        }),
        final(wayland).captures@.len() == 0,
        final(wayland).output_sources == old(wayland).output_sources,
        final(wayland).copy == old(wayland).copy,
        final(wayland).data_control == old(wayland).data_control,
{
    let ghost expected = collecting_all(app@.outputs, wayland.captures@, held@);
    let collected = collect(app, wayland, held);
    assert(collected_view(collected@) == expected);
    let mut pixels: Vec<Vec<u8>> = Vec::new();
    let mut said: Vec<String> = Vec::new();
    let mut i: usize = 0;
    assert(expected.take(0) == Seq::<Collecting>::empty());
    assert(text::strings_view(said@) == Seq::<Seq<char>>::empty());
    while i < collected.len()
        invariant
            i <= collected@.len(),
            collected@.len() == held@.len(),
            collected_view(collected@) == expected,
            pixels@.len() == i,
            forall|j: usize|
                j < held@.len() && expected[j as int] is Take ==> #[trigger] call_requires(
                    read,
                    (j,),
                ),
            forall|j: int|
                0 <= j < i && expected[j] is Take ==> call_ensures(
                    read,
                    (j as usize,),
                    #[trigger] pixels@[j],
                ),
            text::strings_view(said@) == said_of_all(expected.take(i as int)),
        decreases collected@.len() - i,
    {
        assert(expected.take(i + 1).drop_last() == expected.take(i as int));
        assert(expected.take(i + 1).last() == collected@[i as int]@);
        assert(expected[i as int] == collected@[i as int]@);
        let ghost before = text::strings_view(said@);
        let mut bytes: Vec<u8> = Vec::new();
        match &collected[i] {
            Collected::Take { warning, .. } => {
                bytes = read(i);
                if let Some(warning) = warning {
                    said.push(warning.clone());
                    assert(text::strings_view(said@) == before.push(warning@));
                }
            },
            Collected::Note(note) => {
                said.push(note.clone());
                assert(text::strings_view(said@) == before.push(note@));
            },
            Collected::Nothing => {},
        }
        pixels.push(bytes);
        i += 1;
    }
    assert(expected.take(i as int) == expected);
    assert(read_by(read, expected, pixels@));
    (assemble(regions_of(&collected, pixels)), said)
}

/// Whether a result is the desktop made of `parts`: a failure where there are none.
pub open spec fn shot_is(r: Result<Shot, String>, parts: Seq<(Rect, Seq<u8>)>) -> bool {
    match r {
        Ok(shot) => parts.len() > 0 && regions_view(shot.regions@) == parts,
        Err(why) => parts.len() == 0 && why@
            == "nothing could be captured; is any monitor awake?"@,
    }
}

/// Whether a monitor delivered a frame, into a buffer, and has a place in the layout.
pub open spec fn delivered(
    outputs: Seq<Option<OutputInfo>>,
    capture: Capture,
    held: bool,
) -> bool {
    &&& held
    &&& capture.constraints is Some
    &&& capture.outcome == Some(Outcome::Ready)
    &&& ui::first_named(outputs, capture.output_name@) is Some
}

/// Whether `bytes` hold a frame of the size that a capture settled on.
pub open spec fn holds_frame(capture: Capture, bytes: Seq<u8>) -> bool {
    capture.constraints matches Some(constraints) && constraints.fits() && shm::image_bytes(
        constraints.width as int,
        constraints.height as int,
    ) <= bytes.len()
}

/// Whether `part` is what a monitor delivered: at its place, of the captured size, and with the
/// first bytes of its buffer, four for each pixel.
pub open spec fn part_is(
    outputs: Seq<Option<OutputInfo>>,
    capture: Capture,
    bytes: Seq<u8>,
    part: (Rect, Seq<u8>),
) -> bool {
    &&& capture.constraints matches Some(constraints) && ui::first_named(
        outputs,
        capture.output_name@,
    ) matches Some(info) && {
        &&& part.0.x == info.place().0 && part.0.y == info.place().1
        &&& part.0.w == constraints.width && part.0.h == constraints.height
        &&& part.1.len() == 4 * part.0.w * part.0.h
        &&& part.1 == bytes.take(part.1.len() as int)
    }
}

/// How many of the first `n` monitors delivered.
pub open spec fn delivered_before(
    outputs: Seq<Option<OutputInfo>>,
    captures: Seq<Capture>,
    held: Seq<bool>,
    n: int,
) -> int
    decreases n,
{
    if n <= 0 {
        0
    } else {
        delivered_before(outputs, captures, held, n - 1) + if delivered(
            outputs,
            captures[n - 1],
            held[n - 1],
        ) {
            1int
        } else {
            0int
        }
    }
}

/// The frozen desktop is every monitor that delivered, and no others. There is one if and only if
/// any monitor delivered. It has one part per such monitor, in their order, each where the layout
/// has the monitor, of the size that was captured, and with four bytes for each of its pixels,
/// which are the first of its buffer's.
pub proof fn the_desktop_is_every_monitor_that_delivered(
    outputs: Seq<Option<OutputInfo>>,
    captures: Seq<Capture>,
    held: Seq<bool>,
    pixels: Seq<Seq<u8>>,
    r: Result<Shot, String>,
)
    requires
        captures.len() == held.len() == pixels.len(),
        forall|k: int|
            0 <= k < captures.len() && delivered(outputs, captures[k], held[k])
                ==> #[trigger] holds_frame(captures[k], pixels[k]),
        shot_is(r, parts_of(collecting_all(outputs, captures, held), pixels)),
    ensures
        r is Ok <==> exists|i: int|
            0 <= i < captures.len() && delivered(outputs, #[trigger] captures[i], held[i]),
        r matches Ok(shot) ==> {
            &&& shot.regions@.len() == delivered_before(
                outputs,
                captures,
                held,
                captures.len() as int,
            )
            &&& forall|i: int|
                0 <= i < captures.len() && delivered(outputs, #[trigger] captures[i], held[i])
                    ==> {
                    let n = delivered_before(outputs, captures, held, i);
                    &&& 0 <= n < shot.regions@.len()
                    &&& part_is(
                        outputs,
                        captures[i],
                        pixels[i],
                        (shot.regions@[n].rect, shot.regions@[n].pixels@),
                    )
                }
        },
{
    let all = collecting_all(outputs, captures, held);
    let parts = parts_of(all, pixels);
    let n = captures.len() as int;
    assert(all.take(all.len() as int) == all);
    parts_are_what_was_delivered(outputs, captures, held, pixels, n, 0);
    assert forall|i: int|
        0 <= i < captures.len() && delivered(
            outputs,
            #[trigger] captures[i],
            held[i],
        ) implies 0 <= delivered_before(outputs, captures, held, i) < parts.len() && part_is(
        outputs,
        captures[i],
        pixels[i],
        parts[delivered_before(outputs, captures, held, i)],
    ) by {
        parts_are_what_was_delivered(outputs, captures, held, pixels, n, i);
    }
    if forall|k: int|
        0 <= k < captures.len() ==> !delivered(outputs, #[trigger] captures[k], held[k]) {
        no_parts_of_nothing(outputs, captures, held, pixels, n);
    }
    if let Ok(shot) = r {
        assert forall|j: int| 0 <= j < parts.len() implies #[trigger] parts[j] == (
            shot.regions@[j].rect,
            shot.regions@[j].pixels@,
        ) by {
            assert(regions_view(shot.regions@)[j] == parts[j]);
        }
    }
}

/// Where none of the first `n` monitors delivered, none is a part of the desktop.
proof fn no_parts_of_nothing(
    outputs: Seq<Option<OutputInfo>>,
    captures: Seq<Capture>,
    held: Seq<bool>,
    pixels: Seq<Seq<u8>>,
    n: int,
)
    requires
        captures.len() == held.len(),
        0 <= n <= captures.len(),
        forall|k: int|
            0 <= k < captures.len() ==> !delivered(outputs, #[trigger] captures[k], held[k]),
    ensures
        parts_of(collecting_all(outputs, captures, held).take(n), pixels).len() == 0,
    decreases n,
{
    let all = collecting_all(outputs, captures, held);
    if n > 0 {
        assert(all.take(n).drop_last() == all.take(n - 1));
        assert(all.take(n).last() == all[n - 1]);
        assert(!delivered(outputs, captures[n - 1], held[n - 1]));
        assert(!(collecting(outputs, captures[n - 1], held[n - 1]) is Take));
        no_parts_of_nothing(outputs, captures, held, pixels, n - 1);
    }
}

/// The parts of the first `n` captures are as many as delivered, and that of the capture at `i`,
/// if it is among them and delivered, comes after those before it.
proof fn parts_are_what_was_delivered(
    outputs: Seq<Option<OutputInfo>>,
    captures: Seq<Capture>,
    held: Seq<bool>,
    pixels: Seq<Seq<u8>>,
    n: int,
    i: int,
)
    requires
        captures.len() == held.len() == pixels.len(),
        forall|k: int|
            0 <= k < captures.len() && delivered(outputs, captures[k], held[k])
                ==> #[trigger] holds_frame(captures[k], pixels[k]),
        0 <= n <= captures.len(),
    ensures
        ({
            let parts = parts_of(collecting_all(outputs, captures, held).take(n), pixels);
            let at = delivered_before(outputs, captures, held, i);
            &&& parts.len() == delivered_before(outputs, captures, held, n)
            &&& 0 <= i < n && delivered(outputs, captures[i], held[i]) ==> {
                &&& 0 <= at < parts.len()
                &&& Some(parts[at]) == part_of(
                    collecting(outputs, captures[i], held[i]),
                    pixels[i],
                )
                &&& part_is(outputs, captures[i], pixels[i], parts[at])
            }
        }),
    decreases n,
{
    let all = collecting_all(outputs, captures, held);
    if n > 0 {
        let last = n - 1;
        let capture = captures[last];
        assert(all.take(n).drop_last() == all.take(last));
        assert(all.take(n).last() == all[last]);
        parts_are_what_was_delivered(outputs, captures, held, pixels, last, i);
        if i == last {
            parts_are_what_was_delivered(outputs, captures, held, pixels, last, last);
        }
        if delivered(outputs, capture, held[last]) {
            assert(holds_frame(capture, pixels[last]));
            a_delivered_part(outputs, capture, pixels[last]);
        } else {
            assert(!(collecting(outputs, capture, held[last]) is Take));
        }
    }
}

/// What one monitor that delivered is a part of the desktop as.
proof fn a_delivered_part(
    outputs: Seq<Option<OutputInfo>>,
    capture: Capture,
    bytes: Seq<u8>,
)
    requires
        delivered(outputs, capture, true),
        holds_frame(capture, bytes),
    ensures
        part_of(collecting(outputs, capture, true), bytes) matches Some(part) && part_is(
            outputs,
            capture,
            bytes,
            part,
        ),
{
    let constraints = capture.constraints->0;
    let (w, h) = (constraints.width as int, constraints.height as int);
    assert(shm::image_bytes(w, h) == 4 * w * h && 0 <= w * h) by (nonlinear_arith)
        requires
            shm::image_bytes(w, h) == w * h * 4,
            0 <= w,
            0 <= h,
    ;
}

/// A monitor that is lost is named: what is said about it starts with what it is called.
pub proof fn a_lost_monitor_is_named(
    outputs: Seq<Option<OutputInfo>>,
    capture: Capture,
    held: bool,
)
    ensures
        collecting(outputs, capture, held) matches Collecting::Note(note) ==> note.len()
            >= capture.output_name@.len() && note.take(capture.output_name@.len() as int)
            == capture.output_name@,
{
    let name = capture.output_name@;
    if let Collecting::Note(note) = collecting(outputs, capture, held) {
        assert(note.take(name.len() as int) == name);
    }
}

/// What is taken of a monitor is put where that monitor is, and only a frame that is ready is
/// taken.
pub proof fn a_captured_monitor_is_where_the_layout_says(
    outputs: Seq<Option<OutputInfo>>,
    capture: Capture,
    held: bool,
)
    requires
        collecting(outputs, capture, held) is Take,
    ensures
        held,
        capture.outcome == Some(Outcome::Ready),
        collecting(outputs, capture, held) matches Collecting::Take { rect, warning }
            && ui::first_named(outputs, capture.output_name@) matches Some(info) && (rect.x, rect.y)
            == info.place(),
{
}

/// The wait is bounded: once the deadline has passed, or the compositor has stayed silent for as
/// long as was left, it is over, whatever is still missing.
pub proof fn the_wait_is_bounded(event: SettleEvent, action: SettleAction)
    requires
        settles(event, action),
        match event {
            SettleEvent::Dispatched { done, in_time } => !in_time,
            SettleEvent::Polled { readable } => !readable,
            _ => false,
        },
    ensures
        action is Stop,
{
}

/// What becomes of one capture. Without a buffer, or before the compositor has said what it wants,
/// there is nothing to collect. A frame that has not come, that failed, or that is of a monitor
/// without a place in the layout is lost, and it is said why. Any other is taken: where its monitor
/// is, at the size that was captured, with a warning if and only if that is not the size that the
/// monitor has on the desktop.
pub proof fn what_becomes_of_a_capture(
    outputs: Seq<Option<OutputInfo>>,
    capture: Capture,
    held: bool,
)
    ensures
        ({
            let name = capture.output_name@;
            let becomes = collecting(outputs, capture, held);
            &&& !held || capture.constraints is None ==> becomes is Nothing
            &&& held && capture.constraints is Some ==> {
                &&& capture.outcome is None ==> becomes == Collecting::Note(
                    name + " did not answer in time; leaving it out"@,
                )
                &&& capture.outcome matches Some(Outcome::Failed(reason)) ==> becomes
                    == Collecting::Note(name + " could not be captured: "@ + reason@)
                &&& capture.outcome == Some(Outcome::Ready) && ui::first_named(
                    outputs,
                    name,
                ) is None ==> becomes == Collecting::Note(
                    name + " has no place in the layout; leaving it out"@,
                )
                &&& capture.outcome == Some(Outcome::Ready) ==> (ui::first_named(
                    outputs,
                    name,
                ) matches Some(info) ==> (becomes matches Collecting::Take { rect, warning }
                    && (rect.x, rect.y) == info.place() && (capture.constraints->0.width
                    <= 0x7fff_ffff && capture.constraints->0.height <= 0x7fff_ffff ==> {
                    &&& rect.w == capture.constraints->0.width
                    &&& rect.h == capture.constraints->0.height
                }) && (warning is Some <==> info.logical_size is Some && info.logical_size != Some(
                    (rect.w, rect.h),
                ))))
            }
        }),
{
}

/// What is done while waiting: events are dispatched until what is waited for is there or the time
/// is up, then a read is prepared, the connection is polled and what arrived is read, over and
/// again. A failure ends the wait and is said; an interruption does not.
pub proof fn how_the_wait_goes_on(event: SettleEvent, action: SettleAction)
    requires
        settles(event, action),
    ensures
        event matches SettleEvent::Dispatched { done, in_time } ==> {
            &&& done || !in_time ==> action is Stop
            &&& !done && in_time ==> action is Prepare
        },
        event matches SettleEvent::Prepared { queued } ==> {
            &&& queued ==> action is Dispatch
            &&& !queued ==> action is Poll
        },
        event matches SettleEvent::Polled { readable } ==> {
            &&& readable ==> action is Read
            &&& !readable ==> action is Stop
        },
        event is PollInterrupted || event is Read ==> action is Dispatch,
        event matches SettleEvent::DispatchFailed(err) ==> (action matches SettleAction::Fail(why)
            && why@ == "lost the compositor while capturing: "@ + err@),
        event matches SettleEvent::ReadFailed(err) ==> (action matches SettleAction::Fail(why)
            && why@ == "lost the compositor while capturing: "@ + err@),
        event matches SettleEvent::FlushFailed(err) ==> (action matches SettleAction::Fail(why)
            && why@ == "could not talk to the compositor: "@ + err@),
        event matches SettleEvent::PollFailed(err) ==> (action matches SettleAction::Fail(why)
            && why@ == "could not wait on the compositor: "@ + err@),
{
}

/// A session is opened under its monitor's name, or as that of an unnamed monitor, with the pointer
/// if it is asked for, and with nothing known of it yet.
pub proof fn a_session_is_opened_for_its_monitor(
    capture: Capture,
    output: Option<OutputInfo>,
    cursor: bool,
)
    requires
        opened(capture, output, cursor),
    ensures
        output matches Some(info) ==> (info.name matches Some(name) ==> capture.output_name@
            == name@),
        output is None || output->0.name is None ==> capture.output_name@ == "an unnamed monitor"@,
        capture.with_cursor == cursor,
        capture.constraints is None && capture.incoming.format is None && capture.outcome is None,
        !capture.stopped && !capture.frame,
{
}

/// Capturing is refused where the compositor lacks something that it takes, which is named, and
/// where there is no monitor; and for no other reason.
pub proof fn why_nothing_can_be_captured(missing: Seq<Seq<char>>, captures: nat)
    ensures
        missing.len() > 0 ==> sessions_error(missing, captures) == Some(
            "the compositor does not implement "@ + text::joined(missing, ", "@)
                + " -- it cannot be captured"@,
        ),
        missing.len() == 0 && captures == 0 ==> sessions_error(missing, captures) == Some(
            "the compositor reported no monitors"@,
        ),
        missing.len() == 0 && captures > 0 ==> sessions_error(missing, captures) is None,
{
}

/// A capture that is taken is a part of the desktop if its buffer holds four bytes for each of its
/// pixels; the part is at its place and is those bytes. No other capture is one.
pub proof fn a_part_is_the_first_bytes_of_its_buffer(collecting: Collecting, bytes: Seq<u8>)
    ensures
        !(collecting is Take) ==> part_of(collecting, bytes) is None,
        collecting matches Collecting::Take { rect, warning } ==> {
            let n = 4 * (rect.w * rect.h);
            let held = rect.w >= 0 && rect.h >= 0 && n <= usize::MAX && n <= bytes.len();
            &&& held ==> part_of(collecting, bytes) == Some((rect, bytes.take(n)))
            &&& !held ==> part_of(collecting, bytes) is None
        },
{
    if let Collecting::Take { rect, .. } = collecting {
        shm::an_image_is_four_bytes_a_pixel(rect.w as int, rect.h as int);
    }
}

/// What the parts of the desktop are, one capture after the other: one more capture adds its part
/// after those before it, if it has one, and so with what is said.
pub proof fn one_more_capture_adds_its_part(
    captures: Seq<Collecting>,
    capture: Collecting,
    pixels: Seq<Seq<u8>>,
)
    requires
        captures.len() < pixels.len(),
    ensures
        parts_of(Seq::empty(), pixels).len() == 0,
        said_of_all(Seq::empty()).len() == 0,
        parts_of(captures.push(capture), pixels) == (match part_of(
            capture,
            pixels[captures.len() as int],
        ) {
            Some(part) => parts_of(captures, pixels).push(part),
            None => parts_of(captures, pixels),
        }),
        capture is Nothing ==> said_of_all(captures.push(capture)) == said_of_all(captures),
        capture matches Collecting::Note(note) ==> said_of_all(captures.push(capture))
            == said_of_all(captures).push(note),
        capture matches Collecting::Take { rect, warning } ==> {
            &&& warning is None ==> said_of_all(captures.push(capture)) == said_of_all(captures)
            &&& warning is Some ==> said_of_all(captures.push(capture)) == said_of_all(
                captures,
            ).push(warning->0)
        },
{
    assert(captures.push(capture).drop_last() == captures);
    assert(captures.push(capture).last() == capture);
}

/// The views of what became of captures, of bytes and of the parts of a desktop are theirs one by
/// one.
pub proof fn views_are_one_by_one(
    collected: Seq<Collected>,
    bytes: Seq<Vec<u8>>,
    regions: Seq<Region>,
    i: int,
)
    ensures
        collected_view(collected).len() == collected.len(),
        0 <= i < collected.len() ==> {
            let (own, view) = (collected[i], collected_view(collected)[i]);
            &&& own is Nothing <==> view is Nothing
            &&& own matches Collected::Note(note) ==> view == Collecting::Note(note@)
            &&& own matches Collected::Take { rect, warning } ==> view == (Collecting::Take {
                rect,
                warning: text::optional_view(warning),
            })
        },
        bytes_view(bytes).len() == bytes.len(),
        0 <= i < bytes.len() ==> bytes_view(bytes)[i] == bytes[i]@,
        regions_view(regions).len() == regions.len(),
        0 <= i < regions.len() ==> regions_view(regions)[i] == (
            regions[i].rect,
            regions[i].pixels@,
        ),
{
}

/// The bytes of a capture that is taken are those that were read for that capture, by its own
/// place among the captures.
pub proof fn what_is_taken_is_read_for_itself<F: Fn(usize) -> Vec<u8>>(
    read: F,
    captures: Seq<Collecting>,
    pixels: Seq<Vec<u8>>,
    i: usize,
)
    requires
        read_by(read, captures, pixels),
        i < captures.len(),
        captures[i as int] is Take,
    ensures
        pixels.len() == captures.len(),
        call_ensures(read, (i,), pixels[i as int]),
{
}

/// The desktop is there if and only if there is a part of it, and is then made of the parts in
/// their order; a desktop without a part is refused with the one thing there is to look into.
pub proof fn a_desktop_without_parts_is_refused(
    r: Result<Shot, String>,
    parts: Seq<(Rect, Seq<u8>)>,
    i: int,
)
    requires
        shot_is(r, parts),
    ensures
        r is Ok <==> parts.len() > 0,
        r matches Err(why) ==> why@ == "nothing could be captured; is any monitor awake?"@,
        r matches Ok(shot) ==> shot.regions@.len() == parts.len() && (0 <= i < parts.len() ==> (
        shot.regions@[i].rect == parts[i].0 && shot.regions@[i].pixels@ == parts[i].1)),
{
    if let Ok(shot) = r {
        assert(regions_view(shot.regions@).len() == parts.len());
        if 0 <= i < parts.len() {
            assert(regions_view(shot.regions@)[i] == parts[i]);
        }
    }
}

} // verus!
