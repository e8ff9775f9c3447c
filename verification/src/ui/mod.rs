//! The overlay: what it shows, and what each event does to it.
//!
//! One surface per monitor, each showing the part of the frozen desktop that falls on its own
//! screen. The program around this owns the surfaces; it hands every event in here and does what
//! comes back -- set a cursor, redraw a pane, stop with a [`Choice`].
//!
//! ## One picture, several panes
//!
//! The selection lives in **global desktop coordinates** and never learns there is more than
//! one monitor. Each [`Pane`] knows only where its own top-left corner sits in that plane, adds
//! it to every pointer event and subtracts it from everything it draws. That is what lets a band
//! be dragged across the gap between two screens -- see [`crate::select`] and [`crate::shot`].
//!
//! ## Scale
//!
//! Everything is drawn at scale 1, and a HiDPI monitor is reported rather than handled -- see
//! [`App::warn_if_scaled`]. A screenshot is exactly where fractional scale would show, so this
//! is worth being loud about rather than quietly wrong.

pub mod paint;

use crate::geometry;
use crate::geometry::Rect;
use crate::select;
use crate::select::{Grip, Handle, Point, Selection, SelectionState};
use crate::shot;
use crate::shot::{Region, Shot};
use crate::text;
use paint::{Bar, BarState, Button, Metrics, Offered, Scene};
use vstd::prelude::*;

verus! {

/// `wl_pointer`'s left button, from `linux/input-event-codes.h`.
pub const BTN_LEFT: u32 = 0x110;

/// What the user settled on.
#[derive(Debug, Clone, Copy, PartialEq, Eq, Structural)]
pub enum Choice {
    Save(Rect),
    Copy(Rect),
    Canceled,
}

impl Choice {
    /// Whether what was settled on is a part of `bounds` that has a pixel in it. Canceling is
    /// about no part at all.
    pub open spec fn is_part_of(self, bounds: Rect) -> bool {
        match self {
            Choice::Save(rect) => !rect.empty() && rect.within(bounds),
            Choice::Copy(rect) => !rect.empty() && rect.within(bounds),
            Choice::Canceled => true,
        }
    }
}

/// A pointer shape, by the name the cursor theme has it under.
#[derive(Debug, Clone, Copy, PartialEq, Eq, Structural)]
pub enum Cursor {
    Default,
    Crosshair,
    Move,
    NwResize,
    NResize,
    NeResize,
    WResize,
    EResize,
    SwResize,
    SResize,
    SeResize,
}

/// The shape for a handle: the one that points the way it moves.
pub open spec fn handle_cursor(handle: Handle) -> Cursor {
    match handle {
        Handle::TopLeft => Cursor::NwResize,
        Handle::Top => Cursor::NResize,
        Handle::TopRight => Cursor::NeResize,
        Handle::Left => Cursor::WResize,
        Handle::Right => Cursor::EResize,
        Handle::BottomLeft => Cursor::SwResize,
        Handle::Bottom => Cursor::SResize,
        Handle::BottomRight => Cursor::SeResize,
    }
}

/// The shape for what is under the pointer.
pub open spec fn wanted_cursor(grip: Grip, on_bar: bool) -> Cursor {
    if on_bar {
        Cursor::Default
    } else {
        match grip {
            Grip::Outside => Cursor::Crosshair,
            Grip::Inside => Cursor::Move,
            Grip::Handle(handle) => handle_cursor(handle),
        }
    }
}

/// The cursor shape for what is under the pointer.
pub fn cursor_for(grip: Grip, on_bar: bool) -> (r: Cursor)
    ensures
        r == wanted_cursor(grip, on_bar),
{
    if on_bar {
        return Cursor::Default;
    }
    match grip {
        Grip::Outside => Cursor::Crosshair,
        Grip::Inside => Cursor::Move,
        Grip::Handle(handle) => match handle {
            Handle::TopLeft => Cursor::NwResize,
            Handle::Top => Cursor::NResize,
            Handle::TopRight => Cursor::NeResize,
            Handle::Left => Cursor::WResize,
            Handle::Right => Cursor::EResize,
            Handle::BottomLeft => Cursor::SwResize,
            Handle::Bottom => Cursor::SResize,
            Handle::BottomRight => Cursor::SeResize,
        },
    }
}

/// The X key symbols that mean something here.
pub const KEY_ESCAPE: u32 = 0xff1b;

pub const KEY_RETURN: u32 = 0xff0d;

pub const KEY_KP_ENTER: u32 = 0xff8d;

pub const KEY_LOWER_A: u32 = 0x61;

pub const KEY_UPPER_A: u32 = 0x41;

pub const KEY_LOWER_C: u32 = 0x63;

pub const KEY_UPPER_C: u32 = 0x43;

pub const KEY_LEFT: u32 = 0xff51;

pub const KEY_UP: u32 = 0xff52;

pub const KEY_RIGHT: u32 = 0xff53;

pub const KEY_DOWN: u32 = 0xff54;

pub const KEY_KP_LEFT: u32 = 0xff96;

pub const KEY_KP_UP: u32 = 0xff97;

pub const KEY_KP_RIGHT: u32 = 0xff98;

pub const KEY_KP_DOWN: u32 = 0xff99;

/// What a key press is about, whichever of its keys it arrived on.
#[derive(Debug, Clone, Copy, PartialEq, Eq, Structural)]
pub enum Key {
    Escape,
    Enter,
    A,
    C,
    Left,
    Right,
    Up,
    Down,
    Other,
}

impl Key {
    /// What a key symbol is about. The keypad's arrows and Enter are arrows and an Enter, and a
    /// letter is the same one with Shift.
    pub open spec fn meant_by(keysym: u32) -> Key {
        if keysym == KEY_ESCAPE {
            Key::Escape
        } else if keysym == KEY_RETURN || keysym == KEY_KP_ENTER {
            Key::Enter
        } else if keysym == KEY_LOWER_A || keysym == KEY_UPPER_A {
            Key::A
        } else if keysym == KEY_LOWER_C || keysym == KEY_UPPER_C {
            Key::C
        } else if keysym == KEY_LEFT || keysym == KEY_KP_LEFT {
            Key::Left
        } else if keysym == KEY_RIGHT || keysym == KEY_KP_RIGHT {
            Key::Right
        } else if keysym == KEY_UP || keysym == KEY_KP_UP {
            Key::Up
        } else if keysym == KEY_DOWN || keysym == KEY_KP_DOWN {
            Key::Down
        } else {
            Key::Other
        }
    }

    /// What a key symbol is about.
    pub fn of(keysym: u32) -> (r: Key)
        ensures
            r == Key::meant_by(keysym),
    {
        if keysym == KEY_ESCAPE {
            Key::Escape
        } else if keysym == KEY_RETURN || keysym == KEY_KP_ENTER {
            Key::Enter
        } else if keysym == KEY_LOWER_A || keysym == KEY_UPPER_A {
            Key::A
        } else if keysym == KEY_LOWER_C || keysym == KEY_UPPER_C {
            Key::C
        } else if keysym == KEY_LEFT || keysym == KEY_KP_LEFT {
            Key::Left
        } else if keysym == KEY_RIGHT || keysym == KEY_KP_RIGHT {
            Key::Right
        } else if keysym == KEY_UP || keysym == KEY_KP_UP {
            Key::Up
        } else if keysym == KEY_DOWN || keysym == KEY_KP_DOWN {
            Key::Down
        } else {
            Key::Other
        }
    }
}

/// The modifier keys that are held down, as far as they mean something here.
#[derive(Debug, Clone, Copy, PartialEq, Eq, Structural)]
pub struct Modifiers {
    pub shift: bool,
    pub ctrl: bool,
}

/// What the compositor says about a monitor.
pub struct OutputInfo {
    /// The connector's name.
    pub name: Option<String>,
    /// `xdg_output`'s answer to where the monitor is, which accounts for scaling.
    pub logical_position: Option<(i32, i32)>,
    /// `wl_output.geometry`'s answer, which is what is left when the compositor has no
    /// `xdg_output`.
    pub location: (i32, i32),
    /// How big the monitor is on the desktop.
    pub logical_size: Option<(i32, i32)>,
    pub scale_factor: i32,
}

impl OutputInfo {
    /// Where the monitor's top-left corner sits on the desktop.
    pub open spec fn place(self) -> (i32, i32) {
        match self.logical_position {
            Some(position) => position,
            None => self.location,
        }
    }

    /// Whether the monitor has this name.
    pub open spec fn is_named(self, name: Seq<char>) -> bool {
        self.name matches Some(own) && own@ == name
    }

    /// Where the monitor's top-left corner sits on the desktop.
    pub fn origin(&self) -> (r: (i32, i32))
        ensures
            r == self.place(),
    {
        match self.logical_position {
            Some(position) => position,
            None => self.location,
        }
    }
}

/// The name of a monitor, as far as the compositor has described it.
pub open spec fn name_of(output: Option<OutputInfo>) -> Option<Seq<char>> {
    match output {
        Some(info) => text::optional_view(info.name),
        None => None,
    }
}

/// The first monitor of this name among those the compositor has described.
pub open spec fn first_named(outputs: Seq<Option<OutputInfo>>, name: Seq<char>) -> Option<
    OutputInfo,
>
    decreases outputs.len(),
{
    if outputs.len() == 0 {
        None
    } else if outputs[0] matches Some(info) && info.is_named(name) {
        outputs[0]
    } else {
        first_named(outputs.drop_first(), name)
    }
}

/// What is said of a monitor whose captured size is not its logical size.
pub open spec fn scale_warning(
    name: Seq<char>,
    width: int,
    height: int,
    logical: (int, int),
    scale: int,
) -> Seq<char> {
    name + " is "@ + text::signed_decimal(width) + "x"@ + text::signed_decimal(height)
        + " pixels but "@ + text::signed_decimal(logical.0) + "x"@ + text::signed_decimal(
        logical.1,
    ) + " logical (scale "@ + text::signed_decimal(scale)
        + "); this program draws at scale 1, so the overlay on that monitor will not line up"@
}

/// What to say of the monitor of this name, where it was captured at `width` by `height`.
pub open spec fn warning(
    outputs: Seq<Option<OutputInfo>>,
    name: Seq<char>,
    width: i32,
    height: i32,
) -> Option<Seq<char>> {
    match first_named(outputs, name) {
        Some(info) => match info.logical_size {
            Some(size) if size != (width, height) => Some(
                scale_warning(
                    name,
                    width as int,
                    height as int,
                    (size.0 as int, size.1 as int),
                    info.scale_factor as int,
                ),
            ),
            _ => None,
        },
        None => None,
    }
}

/// One monitor's part of the overlay.
#[derive(Debug, Clone, Copy, PartialEq, Eq)]
pub struct Pane {
    /// Which monitor it is on, by its place in the list of them.
    pub output: usize,
    /// Where this pane's top-left corner sits on the desktop.
    pub origin: (i32, i32),
    pub width: i32,
    pub height: i32,
    /// Whether the compositor has said how big the surface is to be.
    pub configured: bool,
}

/// The first captured region whose corner is at `origin`.
pub open spec fn region_at(regions: Seq<Region>, origin: (i32, i32)) -> Option<Rect>
    decreases regions.len(),
{
    if regions.len() == 0 {
        None
    } else if regions[0].rect.x == origin.0 && regions[0].rect.y == origin.1 {
        Some(regions[0].rect)
    } else {
        region_at(regions.drop_first(), origin)
    }
}

/// The pane for one monitor, if that monitor was captured.
pub open spec fn pane_on(output: Option<OutputInfo>, index: int, regions: Seq<Region>) -> Seq<
    Pane,
> {
    match output {
        None => Seq::empty(),
        Some(info) => match region_at(regions, info.place()) {
            None => Seq::empty(),
            Some(rect) => seq![
                Pane {
                    output: index as usize,
                    origin: info.place(),
                    width: rect.w,
                    height: rect.h,
                    configured: false,
                },
            ],
        },
    }
}

/// One pane per monitor that was captured, in the order of the monitors.
pub open spec fn panes_on(outputs: Seq<Option<OutputInfo>>, regions: Seq<Region>) -> Seq<Pane>
    decreases outputs.len(),
{
    if outputs.len() == 0 {
        Seq::empty()
    } else {
        panes_on(outputs.drop_last(), regions) + pane_on(
            outputs.last(),
            outputs.len() - 1,
            regions,
        )
    }
}

/// Where a monitor's pane goes, if the monitor was captured.
fn find_region(regions: &Vec<Region>, origin: (i32, i32)) -> (r: Option<Rect>)
    ensures
        r == region_at(regions@, origin),
{
    let mut i: usize = 0;
    assert(regions@.skip(0) == regions@);
    while i < regions.len()
        invariant
            i <= regions@.len(),
            region_at(regions@, origin) == region_at(regions@.skip(i as int), origin),
        decreases regions@.len() - i,
    {
        let rect = regions[i].rect;
        assert(regions@.skip(i as int)[0] == regions@[i as int]);
        assert(regions@.skip(i as int).drop_first() == regions@.skip(i + 1));
        if rect.x == origin.0 && rect.y == origin.1 {
            return Some(rect);
        }
        i += 1;
    }
    None
}

/// The bytes that the pixels of these panes take, at four bytes a pixel.
pub open spec fn pane_bytes(panes: Seq<Pane>) -> int
    decreases panes.len(),
{
    if panes.len() == 0 {
        0
    } else {
        pane_bytes(panes.drop_last()) + panes.last().width * panes.last().height * 4
    }
}

/// Whether no pane has a negative number of pixels.
pub open spec fn panes_have_areas(panes: Seq<Pane>) -> bool {
    forall|i: int| 0 <= i < panes.len() ==> 0 <= (#[trigger] panes[i]).width * panes[i].height
}

/// The bytes of a run of panes are at least those of any run that it starts with.
proof fn bytes_grow(panes: Seq<Pane>, n: int)
    requires
        panes_have_areas(panes),
        0 <= n <= panes.len(),
    ensures
        0 <= pane_bytes(panes.take(n)) <= pane_bytes(panes),
    decreases panes.len(),
{
    if panes.len() == 0 {
        assert(panes.take(n) == panes);
    } else {
        let before = panes.drop_last();
        assert(0 <= panes[panes.len() - 1].width * panes[panes.len() - 1].height);
        assert forall|i: int| 0 <= i < before.len() implies 0 <= (#[trigger] before[i]).width
            * before[i].height by {
            assert(before[i] == panes[i]);
        }
        if n < panes.len() {
            assert(before.take(n) == panes.take(n));
            bytes_grow(before, n);
        } else {
            assert(panes.take(n) == panes);
            bytes_grow(before, n - 1);
        }
    }
}

/// How big a pool the panes' pixels need, which is never nothing at all; `None` where that is
/// past what a `usize` can hold.
pub fn pool_size(panes: &Vec<Pane>) -> (r: Option<usize>)
    ensures
        r == (if panes_have_areas(panes@) && pane_bytes(panes@) <= usize::MAX {
            Some(geometry::max(pane_bytes(panes@), 1) as usize)
        } else {
            None
        }),
{
    let mut total: u64 = 0;
    let mut i: usize = 0;
    assert(panes@.take(0) == Seq::<Pane>::empty());
    while i < panes.len()
        invariant
            i <= panes@.len(),
            total == pane_bytes(panes@.take(i as int)),
            total <= usize::MAX,
            forall|j: int| 0 <= j < i ==> 0 <= (#[trigger] panes@[j]).width * panes@[j].height,
        decreases panes@.len() - i,
    {
        let pane = panes[i];
        assert(panes@.take(i + 1).drop_last() == panes@.take(i as int));
        assert(panes@.take(i + 1).last() == pane);
        let (width, height): (i64, i64) = (pane.width as i64, pane.height as i64);
        assert(-0x4000_0000_0000_0000 <= width * height <= 0x4000_0000_0000_0000)
            by (nonlinear_arith)
            requires
                -0x8000_0000 <= width <= 0x8000_0000,
                -0x8000_0000 <= height <= 0x8000_0000,
        ;
        let area: i64 = width * height;
        if area < 0 {
            assert(panes@[i as int].width * panes@[i as int].height < 0);
            return None;
        }
        let bytes: u128 = area as u128 * 4;
        let next: u128 = total as u128 + bytes;
        assert(next == pane_bytes(panes@.take(i + 1)));
        if next > usize::MAX as u128 {
            proof {
                if panes_have_areas(panes@) {
                    bytes_grow(panes@, i + 1);
                }
            }
            return None;
        }
        total = next as u64;
        i += 1;
    }
    assert(panes@.take(i as int) == panes@);
    if total == 0 {
        return Some(1);
    }
    Some(total as usize)
}

/// What a pointer event says.
#[derive(Debug, Clone, Copy, PartialEq, Eq, Structural)]
pub enum PointerKind {
    Enter,
    Motion,
    Leave,
    Press(u32),
    Release(u32),
    /// Anything else, such as a wheel.
    Other,
}

/// One pointer event, on one pane.
#[derive(Debug, Clone, Copy, PartialEq, Eq)]
pub struct PointerEvent {
    /// Which pane it is on. `None` for a surface that is no pane's.
    pub pane: Option<usize>,
    /// Where it is on that pane.
    pub position: (i32, i32),
    pub kind: PointerKind,
}

/// Everything an [`App`] knows.
#[verifier::ext_equal]
pub struct AppState {
    /// The monitors, as far as the compositor has described them.
    pub outputs: Seq<Option<OutputInfo>>,
    pub panes: Seq<Pane>,
    /// The frozen desktop.
    pub regions: Seq<Region>,
    pub selection: SelectionState,
    pub bar: Option<BarState>,
    pub modifiers: Modifiers,
    /// Where the pointer is, in global desktop coordinates.
    pub at: Point,
    /// The shape the pointer was last given.
    pub cursor: Option<Cursor>,
    /// Which button is under the pointer, and which is held down.
    pub hovered: Option<Button>,
    pub pressed: Option<Button>,
    pub metrics: Metrics,
    /// Whether the compositor has a clipboard to copy to.
    pub can_copy: bool,
    pub dim: u8,
    pub choice: Option<Choice>,
    /// Whether anything has changed since the panes were drawn.
    pub dirty: bool,
}

/// The buttons an overlay offers: Copy only where it can work.
pub open spec fn offer(can_copy: bool) -> Offered {
    Offered { save: true, copy: can_copy, cancel: true }
}

impl AppState {
    /// The bar that belongs to the selection. None while a drag is in progress: the bar follows
    /// the selection, and one sliding around under the pointer is both distracting and, at the
    /// moment of release, in the way of the thing being released onto.
    pub open spec fn shown_bar(self) -> Option<BarState> {
        match self.selection.rect {
            Some(rect) if self.selection.drag is None => Some(
                paint::laid_out(
                    rect,
                    self.selection.bounds,
                    self.metrics,
                    offer(self.can_copy).buttons(),
                ),
            ),
            _ => None,
        }
    }

    /// Whether the bar can be laid out on this desktop.
    pub open spec fn has_room(self) -> bool {
        paint::bar_fits(
            self.selection.bounds,
            self.metrics,
            offer(self.can_copy).buttons(),
        )
    }

    /// What holds of every overlay: the selection is sound, and the bar is the one that belongs
    /// to it.
    pub open spec fn wf(self) -> bool {
        &&& self.selection.wf()
        &&& self.has_room()
        &&& self.bar == self.shown_bar()
    }

    /// The button under the pointer.
    pub open spec fn button_here(self) -> Option<Button> {
        match self.bar {
            Some(bar) => paint::button_under(bar.buttons, self.at.x as int, self.at.y as int),
            None => None,
        }
    }

    /// Whether the pointer is anywhere on the bar.
    pub open spec fn on_bar(self) -> bool {
        self.bar matches Some(bar) && bar.rect.covers(self.at.x as int, self.at.y as int)
    }

    /// The bar has been worked out again.
    pub open spec fn refreshed(self) -> AppState {
        AppState { bar: self.shown_bar(), ..self }
    }

    /// Something changed, if `changed`, so the panes have to be drawn again.
    pub open spec fn touched(self, changed: bool) -> AppState {
        AppState { dirty: self.dirty || changed, ..self }
    }

    /// The selection has become `selection`; the bar follows it where what is selected changed.
    pub open spec fn reselected(self, selection: SelectionState) -> AppState {
        let changed = selection.rect != self.selection.rect;
        let next = AppState { selection, ..self };
        if changed {
            next.refreshed().touched(true)
        } else {
            next
        }
    }

    /// The pointer has the shape for what is under it.
    pub open spec fn cursor_updated(self) -> AppState {
        AppState {
            cursor: Some(wanted_cursor(self.selection.grip_at(self.at), self.on_bar())),
            ..self
        }
    }

    /// The answer that a button gives, which is none while nothing is selected.
    pub open spec fn activated(self, button: Button) -> AppState {
        match self.selection.rect {
            None => self,
            Some(rect) => AppState {
                choice: Some(
                    match button {
                        Button::Save => Choice::Save(rect),
                        Button::Copy => Choice::Copy(rect),
                        Button::Cancel => Choice::Canceled,
                    },
                ),
                ..self
            },
        }
    }

    /// Whether an event is on one of the panes, or on none, and at a place that the desktop's
    /// coordinates can name.
    pub open spec fn reaches(self, event: PointerEvent) -> bool {
        event.pane matches Some(index) ==> {
            &&& index < self.panes.len()
            &&& geometry::fits_i32(self.panes[index as int].origin.0 + event.position.0)
            &&& geometry::fits_i32(self.panes[index as int].origin.1 + event.position.1)
        }
    }

    /// The pointer has been moved to where an event on a pane is: surface-local to global, which
    /// is the only place the two coordinate systems meet.
    pub open spec fn pointer_at(self, index: int, position: (i32, i32)) -> AppState {
        AppState {
            at: Point {
                x: (self.panes[index].origin.0 + position.0) as i32,
                y: (self.panes[index].origin.1 + position.1) as i32,
            },
            ..self
        }
    }

    /// The pointer has moved to where it is now. A press that landed on a button owns the
    /// pointer until it is released: sliding off and back must re-arm the button rather than
    /// start a band.
    pub open spec fn moved(self) -> AppState {
        let hover_changed = self.hovered != self.button_here();
        let next = AppState { hovered: self.button_here(), ..self };
        let next = if self.pressed is Some {
            next
        } else {
            next.reselected(self.selection.moved(self.at))
        };
        next.touched(hover_changed).cursor_updated()
    }

    /// The pointer has left the pane.
    pub open spec fn left(self) -> AppState {
        AppState { hovered: None, ..self }.touched(self.hovered is Some)
    }

    /// The left button has gone down. Anywhere on the bar but on a button swallows the press:
    /// clicking the gap between two buttons must not start a new band under the bar the user was
    /// aiming at.
    pub open spec fn left_pressed(self) -> AppState {
        if self.button_here() is Some {
            AppState { pressed: self.button_here(), ..self }.touched(true)
        } else if self.on_bar() {
            self
        } else {
            AppState { selection: self.selection.pressed(self.at), ..self }.refreshed().touched(
                true,
            )
        }
    }

    /// The left button has come up. A press on a button is an answer where the pointer is still
    /// on that button.
    pub open spec fn left_released(self) -> AppState {
        match self.pressed {
            Some(button) => {
                let next = AppState { pressed: None, ..self }.touched(true);
                if self.hovered == Some(button) {
                    next.activated(button)
                } else {
                    next
                }
            },
            None => AppState {
                selection: self.selection.released(),
                ..self
            }.refreshed().touched(true).cursor_updated(),
        }
    }

    /// The state after a pointer event.
    pub open spec fn pointed(self, event: PointerEvent) -> AppState {
        match event.pane {
            None => self,
            Some(index) => {
                let here = self.pointer_at(index as int, event.position);
                match event.kind {
                    PointerKind::Enter => here.moved(),
                    PointerKind::Motion => here.moved(),
                    PointerKind::Leave => here.left(),
                    PointerKind::Press(button) if button == BTN_LEFT => here.left_pressed(),
                    PointerKind::Release(button) if button == BTN_LEFT => here.left_released(),
                    _ => here,
                }
            },
        }
    }

    /// The state after a run of pointer events.
    pub open spec fn framed(self, events: Seq<PointerEvent>) -> AppState
        decreases events.len(),
    {
        if events.len() == 0 {
            self
        } else {
            self.framed(events.drop_last()).pointed(events.last())
        }
    }

    /// The shape a pointer event gives the pointer, where that is another than it has.
    pub open spec fn cursor_change(self, event: PointerEvent) -> Option<Cursor> {
        if self.pointed(event).cursor != self.cursor {
            self.pointed(event).cursor
        } else {
            None
        }
    }

    /// The shapes a run of pointer events gives the pointer, one after the other.
    pub open spec fn cursor_changes(self, events: Seq<PointerEvent>) -> Seq<Cursor>
        decreases events.len(),
    {
        if events.len() == 0 {
            Seq::empty()
        } else {
            let before = self.cursor_changes(events.drop_last());
            match self.framed(events.drop_last()).cursor_change(events.last()) {
                Some(cursor) => before.push(cursor),
                None => before,
            }
        }
    }

    /// How far an arrow key moves.
    pub open spec fn step(self) -> int {
        if self.modifiers.shift {
            select::NUDGE_FAST as int
        } else {
            1
        }
    }

    /// An arrow key. Ctrl turns the arrows from "move the selection" into "move its bottom-right
    /// corner", which is the only way to size a selection to the pixel.
    pub open spec fn arrow(self, dx: int, dy: int) -> AppState {
        self.reselected(
            self.selection.nudged(dx * self.step(), dy * self.step(), self.modifiers.ctrl),
        )
    }

    /// The state after a key press.
    pub open spec fn keyed(self, keysym: u32) -> AppState {
        match Key::meant_by(keysym) {
            Key::Escape => AppState { choice: Some(Choice::Canceled), ..self },
            Key::Enter => match self.selection.rect {
                Some(rect) => AppState { choice: Some(Choice::Save(rect)), ..self },
                None => self,
            },
            Key::C if self.modifiers.ctrl => match self.selection.rect {
                Some(rect) => AppState { choice: Some(Choice::Copy(rect)), ..self },
                None => self,
            },
            Key::A if self.modifiers.ctrl => self.reselected(self.selection.all_selected()),
            Key::Left => self.arrow(-1, 0),
            Key::Right => self.arrow(1, 0),
            Key::Up => self.arrow(0, -1),
            Key::Down => self.arrow(0, 1),
            _ => self,
        }
    }

    /// The state after the compositor has said how big a pane is to be. A zero means "you
    /// choose", and what this chose is already there.
    pub open spec fn pane_configured(self, pane: Option<usize>, size: (u32, u32)) -> AppState {
        match pane {
            None => self,
            Some(index) => {
                let before = self.panes[index as int];
                let (width, height) = if size.0 != 0 && size.1 != 0 {
                    (size.0 as i32, size.1 as i32)
                } else {
                    (before.width, before.height)
                };
                AppState {
                    panes: self.panes.update(
                        index as int,
                        Pane { width, height, configured: true, ..before },
                    ),
                    dirty: true,
                    ..self
                }
            },
        }
    }
}

/// The places of the panes that have been configured.
pub open spec fn configured(panes: Seq<Pane>) -> Seq<usize>
    decreases panes.len(),
{
    if panes.len() == 0 {
        Seq::empty()
    } else if panes.last().configured {
        configured(panes.drop_last()).push((panes.len() - 1) as usize)
    } else {
        configured(panes.drop_last())
    }
}

/// The whole overlay's state.
pub struct App {
    outputs: Vec<Option<OutputInfo>>,
    panes: Vec<Pane>,
    shot: Shot,
    selection: Selection,
    bar: Option<Bar>,
    modifiers: Modifiers,
    at: Point,
    cursor: Option<Cursor>,
    hovered: Option<Button>,
    pressed: Option<Button>,
    metrics: Metrics,
    can_copy: bool,
    dim: u8,
    choice: Option<Choice>,
    dirty: bool,
}

impl View for App {
    type V = AppState;

    closed spec fn view(&self) -> AppState {
        AppState {
            outputs: self.outputs@,
            panes: self.panes@,
            regions: self.shot.regions@,
            selection: self.selection@,
            bar: match self.bar {
                Some(bar) => Some(bar@),
                None => None,
            },
            modifiers: self.modifiers,
            at: self.at,
            cursor: self.cursor,
            hovered: self.hovered,
            pressed: self.pressed,
            metrics: self.metrics,
            can_copy: self.can_copy,
            dim: self.dim,
            choice: self.choice,
            dirty: self.dirty,
        }
    }
}

/// Whether two optional buttons are the same.
fn same_button(a: Option<Button>, b: Option<Button>) -> (r: bool)
    ensures
        r == (a == b),
{
    match b {
        Some(button) => paint::is_button(a, button),
        None => a.is_none(),
    }
}

impl App {
    /// An overlay with nothing on it yet: no monitors, and nothing captured.
    pub fn new(metrics: Metrics, can_copy: bool, dim: u8) -> (r: App)
        requires
            paint::bar_fits(
                Rect { x: 0, y: 0, w: 0, h: 0 },
                metrics,
                offer(can_copy).buttons(),
            ),
        ensures
            r@ == (AppState {
                outputs: Seq::empty(),
                panes: Seq::empty(),
                regions: Seq::empty(),
                selection: SelectionState {
                    bounds: Rect { x: 0, y: 0, w: 0, h: 0 },
                    rect: None,
                    drag: None,
                },
                bar: None,
                modifiers: Modifiers { shift: false, ctrl: false },
                at: Point { x: 0, y: 0 },
                cursor: None,
                hovered: None,
                pressed: None,
                metrics,
                can_copy,
                dim,
                choice: None,
                dirty: true,
            }),
            r@.wf(),
    {
        App {
            outputs: Vec::new(),
            panes: Vec::new(),
            shot: Shot { regions: Vec::new() },
            selection: Selection::new(Rect::new(0, 0, 0, 0)),
            bar: None,
            modifiers: Modifiers { shift: false, ctrl: false },
            at: Point::new(0, 0),
            cursor: None,
            hovered: None,
            pressed: None,
            metrics,
            can_copy,
            dim,
            choice: None,
            dirty: true,
        }
    }

    /// What the compositor says its monitors are now, in its own order; `None` for one it has
    /// not described yet.
    pub fn set_outputs(&mut self, outputs: Vec<Option<OutputInfo>>)
        ensures
            final(self)@ == (AppState { outputs: outputs@, ..old(self)@ }),
            old(self)@.wf() ==> final(self)@.wf(),
    {
        self.outputs = outputs;
    }

    /// How many monitors there are.
    pub fn output_count(&self) -> (r: usize)
        ensures
            r == self@.outputs.len(),
    {
        self.outputs.len()
    }

    /// The first monitor of this name.
    fn find_output(&self, name: &str) -> (r: Option<&OutputInfo>)
        ensures
            match first_named(self@.outputs, name@) {
                Some(info) => r == Some(&info),
                None => r is None,
            },
    {
        let mut i: usize = 0;
        assert(self.outputs@.skip(0) == self.outputs@);
        while i < self.outputs.len()
            invariant
                i <= self.outputs@.len(),
                first_named(self.outputs@, name@) == first_named(
                    self.outputs@.skip(i as int),
                    name@,
                ),
            decreases self.outputs@.len() - i,
        {
            assert(self.outputs@.skip(i as int)[0] == self.outputs@[i as int]);
            assert(self.outputs@.skip(i as int).drop_first() == self.outputs@.skip(i + 1));
            if let Some(info) = &self.outputs[i] {
                if let Some(own) = &info.name {
                    if text::same_text(own.as_str(), name) {
                        return Some(info);
                    }
                }
            }
            i += 1;
        }
        None
    }

    /// A monitor's connector name, which is how a capture is labeled.
    pub fn output_name(&self, output: usize) -> (r: Option<String>)
        ensures
            text::optional_view(r) == (if output < self@.outputs.len() {
                name_of(self@.outputs[output as int])
            } else {
                None
            }),
    {
        if output >= self.outputs.len() {
            return None;
        }
        match &self.outputs[output] {
            Some(info) => match &info.name {
                Some(name) => Some(name.clone()),
                None => None,
            },
            None => None,
        }
    }

    /// Where a monitor's top-left corner sits on the desktop.
    pub fn output_origin(&self, name: &str) -> (r: Option<(i32, i32)>)
        ensures
            r == (match first_named(self@.outputs, name@) {
                Some(info) => Some(info.place()),
                None => None,
            }),
    {
        match self.find_output(name) {
            Some(info) => Some(info.origin()),
            None => None,
        }
    }

    /// What to say, if a monitor's captured size is not its logical size.
    ///
    /// That is a scaled monitor, and this program draws everything at scale 1 -- the selection
    /// would be a fraction of the size the user aimed at. Reported rather than corrected: a
    /// HiDPI pass is real work, and silently handing back the wrong rectangle would be worse
    /// than saying which monitor cannot be trusted.
    pub fn warn_if_scaled(&self, name: &str, width: i32, height: i32) -> (r: Option<String>)
        ensures
            text::optional_view(r) == warning(self@.outputs, name@, width, height),
    {
        let Some(info) = self.find_output(name) else {
            return None;
        };
        let Some((logical_w, logical_h)) = info.logical_size else {
            return None;
        };
        if logical_w == width && logical_h == height {
            return None;
        }
        let mut said = text::concat(name, " is ");
        said.append(text::write_signed(width).as_str());
        said.append("x");
        said.append(text::write_signed(height).as_str());
        said.append(" pixels but ");
        said.append(text::write_signed(logical_w).as_str());
        said.append("x");
        said.append(text::write_signed(logical_h).as_str());
        said.append(" logical (scale ");
        said.append(text::write_signed(info.scale_factor).as_str());
        said.append(
            "); this program draws at scale 1, so the overlay on that monitor will not line up",
        );
        Some(said)
    }

    /// Whether [`App::start`] can put an overlay over this shot: the desktop has a size, and the
    /// bar has a place on it.
    pub fn can_start(&self, shot: &Shot) -> (r: bool)
        ensures
            r == (shot::measurable(shot.regions@) && paint::bar_fits(
                shot::desktop(shot.regions@),
                self@.metrics,
                offer(self@.can_copy).buttons(),
            )),
    {
        if !shot.has_bounds() {
            return false;
        }
        paint::can_lay_out(
            shot.bounds(),
            &self.metrics,
            Offered { save: true, copy: self.can_copy, cancel: true },
        )
    }

    /// Put the overlay over a frozen desktop, with a rectangle selected if there is a preset.
    ///
    /// There is a pane for each monitor in the shot and for no other: a monitor that was asleep
    /// during the grab has no pixels to show, and covering it with a black overlay would be
    /// worse than leaving it alone.
    pub fn start(&mut self, shot: Shot, preset: Option<Rect>) -> (r: Result<(), String>)
        requires
            shot::measurable(shot.regions@),
            paint::bar_fits(
                shot::desktop(shot.regions@),
                old(self)@.metrics,
                offer(old(self)@.can_copy).buttons(),
            ),
        ensures
            ({
                let bounds = shot::desktop(shot.regions@);
                let selection = SelectionState {
                    bounds,
                    rect: match preset {
                        Some(rect) => select::spanned(
                            bounds,
                            rect.x as int,
                            rect.y as int,
                            rect.right_edge(),
                            rect.bottom_edge(),
                        ),
                        None => None,
                    },
                    drag: None,
                };
                let panes = old(self)@.panes + panes_on(old(self)@.outputs, shot.regions@);
                &&& final(self)@ == (AppState {
                    regions: shot.regions@,
                    selection,
                    panes,
                    ..old(self)@
                }).refreshed()
                &&& r is Ok <==> panes.len() > 0
            }),
            r matches Err(why) ==> why@ == "no monitor to put the overlay on"@,
            final(self)@.wf(),
    {
        let bounds = shot.bounds();
        proof {
            shot::the_desktop_has_edges(shot.regions@);
        }
        self.selection = match preset {
            Some(rect) => Selection::preset(bounds, rect),
            None => Selection::new(bounds),
        };
        self.shot = shot;
        self.refresh_bar();
        self.open_panes()
    }

    /// Make one pane per monitor that was captured.
    fn open_panes(&mut self) -> (r: Result<(), String>)
        ensures
            final(self)@ == (AppState {
                panes: old(self)@.panes + panes_on(old(self)@.outputs, old(self)@.regions),
                ..old(self)@
            }),
            r is Ok <==> final(self)@.panes.len() > 0,
            r matches Err(why) ==> why@ == "no monitor to put the overlay on"@,
    {
        let ghost before = self@;
        let mut i: usize = 0;
        assert(before.outputs.take(0) == Seq::<Option<OutputInfo>>::empty());
        assert(before.panes + Seq::<Pane>::empty() == before.panes);
        while i < self.outputs.len()
            invariant
                i <= self.outputs@.len(),
                self@ == (AppState {
                    panes: before.panes + panes_on(before.outputs.take(i as int), before.regions),
                    ..before
                }),
            decreases self.outputs@.len() - i,
        {
            assert(before.outputs.take(i + 1).drop_last() == before.outputs.take(i as int));
            assert(before.outputs.take(i + 1).last() == before.outputs[i as int]);
            let ghost panes = panes_on(before.outputs.take(i as int), before.regions);
            let ghost here = pane_on(before.outputs[i as int], i as int, before.regions);
            assert(before.panes + (panes + here) == (before.panes + panes) + here);
            assert(before.panes + panes + Seq::<Pane>::empty() == before.panes + panes);
            if let Some(info) = &self.outputs[i] {
                let origin = info.origin();
                if let Some(rect) = find_region(&self.shot.regions, origin) {
                    self.panes.push(
                        Pane {
                            output: i,
                            origin,
                            width: rect.w,
                            height: rect.h,
                            configured: false,
                        },
                    );
                    assert(self.panes@ == before.panes + panes + here);
                }
            }
            i += 1;
        }
        assert(before.outputs.take(i as int) == before.outputs);
        if self.panes.len() == 0 {
            return Err("no monitor to put the overlay on".to_string());
        }
        Ok(())
    }

    /// Recompute where the button bar goes. Called whenever the selection moves.
    fn refresh_bar(&mut self)
        requires
            old(self)@.selection.wf(),
            old(self)@.has_room(),
        ensures
            final(self)@ == old(self)@.refreshed(),
    {
        let rect = self.selection.rect();
        let dragging = self.selection.dragging();
        self.bar = match rect {
            Some(rect) if !dragging => Some(
                paint::layout(
                    rect,
                    self.selection.bounds(),
                    &self.metrics,
                    Offered { save: true, copy: self.can_copy, cancel: true },
                ),
            ),
            _ => None,
        };
    }

    /// The answer, once there is one. The program around this stops as soon as there is.
    pub fn choice(&self) -> (r: Option<Choice>)
        ensures
            r == self@.choice,
    {
        self.choice
    }

    /// The panes, in the order their events name them by.
    pub fn panes(&self) -> (r: &Vec<Pane>)
        ensures
            r@ == self@.panes,
    {
        &self.panes
    }

    /// What is selected, if anything.
    pub fn selected(&self) -> (r: Option<Rect>)
        ensures
            r == self@.selection.rect,
    {
        self.selection.rect()
    }

    /// The bar, while there is one.
    pub fn bar(&self) -> (r: Option<&Bar>)
        ensures
            match r {
                Some(bar) => self@.bar == Some(bar@),
                None => self@.bar is None,
            },
    {
        match &self.bar {
            Some(bar) => Some(bar),
            None => None,
        }
    }

    /// The sizes of the texts.
    pub fn metrics(&self) -> (r: &Metrics)
        ensures
            *r == self@.metrics,
    {
        &self.metrics
    }

    /// Which panes have to be drawn again: every configured one, if anything has changed, and
    /// none once there is an answer.
    pub fn draw(&mut self) -> (r: Vec<usize>)
        ensures
            old(self)@.dirty && old(self)@.choice is None ==> {
                &&& r@ == configured(old(self)@.panes)
                &&& final(self)@ == (AppState { dirty: false, ..old(self)@ })
            },
            !old(self)@.dirty || old(self)@.choice is Some ==> {
                &&& r@ == Seq::<usize>::empty()
                &&& final(self)@ == old(self)@
            },
            old(self)@.wf() ==> final(self)@.wf(),
    {
        let mut indices: Vec<usize> = Vec::new();
        if !self.dirty || self.choice.is_some() {
            return indices;
        }
        self.dirty = false;
        let mut i: usize = 0;
        assert(self.panes@.take(0) == Seq::<Pane>::empty());
        while i < self.panes.len()
            invariant
                i <= self.panes@.len(),
                indices@ == configured(self.panes@.take(i as int)),
            decreases self.panes@.len() - i,
        {
            assert(self.panes@.take(i + 1).drop_last() == self.panes@.take(i as int));
            assert(self.panes@.take(i + 1).last() == self.panes@[i as int]);
            if self.panes[i].configured {
                indices.push(i);
            }
            i += 1;
        }
        assert(self.panes@.take(i as int) == self.panes@);
        indices
    }

    /// What a pane shows.
    pub fn scene<'a>(&'a self, index: usize) -> (r: Scene<'a>)
        requires
            index < self@.panes.len(),
        ensures
            r.origin == self@.panes[index as int].origin,
            r.shot.regions@ == self@.regions,
            r.selection@ == self@.selection,
            match r.bar {
                Some(bar) => self@.bar == Some(bar@),
                None => self@.bar is None,
            },
            r.hovered == self@.hovered,
            r.pressed == self@.pressed,
            r.dim == self@.dim,
    {
        Scene {
            origin: self.panes[index].origin,
            shot: &self.shot,
            selection: &self.selection,
            bar: self.bar(),
            hovered: self.hovered,
            pressed: self.pressed,
            dim: self.dim,
        }
    }

    /// Note that something changed, so the next turn of the loop redraws.
    fn touch(&mut self, changed: bool)
        ensures
            final(self)@ == old(self)@.touched(changed),
    {
        self.dirty = self.dirty || changed;
    }

    /// The button under the pointer.
    fn button_under_pointer(&self) -> (r: Option<Button>)
        ensures
            r == self@.button_here(),
    {
        match &self.bar {
            Some(bar) => bar.button_at(self.at.x, self.at.y),
            None => None,
        }
    }

    /// Whether the pointer is anywhere on the bar.
    fn pointer_on_bar(&self) -> (r: bool)
        ensures
            r == self@.on_bar(),
    {
        match &self.bar {
            Some(bar) => bar.contains(self.at.x, self.at.y),
            None => false,
        }
    }

    /// Give the pointer the shape for whatever is under it, and answer with that shape when it
    /// has changed.
    ///
    /// Setting a cursor is a protocol round of its own, and sending one per motion event would
    /// be a request per pixel of a drag.
    fn update_cursor(&mut self) -> (r: Option<Cursor>)
        requires
            old(self)@.selection.wf(),
        ensures
            final(self)@ == old(self)@.cursor_updated(),
            r == (if final(self)@.cursor != old(self)@.cursor {
                final(self)@.cursor
            } else {
                None
            }),
    {
        let wanted = cursor_for(self.selection.grip_at(self.at), self.pointer_on_bar());
        if let Some(cursor) = self.cursor {
            if cursor == wanted {
                return None;
            }
        }
        self.cursor = Some(wanted);
        Some(wanted)
    }

    /// A button was released over the button it was pressed on.
    fn activate(&mut self, button: Button)
        ensures
            final(self)@ == old(self)@.activated(button),
    {
        let Some(rect) = self.selection.rect() else {
            return;
        };
        self.choice = Some(
            match button {
                Button::Save => Choice::Save(rect),
                Button::Copy => Choice::Copy(rect),
                Button::Cancel => Choice::Canceled,
            },
        );
    }

    /// Whether [`App::pointer`] can take an event: its pane is one of these, and the desktop's
    /// coordinates can name its place.
    pub fn can_point(&self, event: &PointerEvent) -> (r: bool)
        ensures
            r == self@.reaches(*event),
    {
        match event.pane {
            None => true,
            Some(index) => {
                if index >= self.panes.len() {
                    return false;
                }
                let origin = self.panes[index].origin;
                let x: i64 = origin.0 as i64 + event.position.0 as i64;
                let y: i64 = origin.1 as i64 + event.position.1 as i64;
                i32::MIN as i64 <= x && x <= i32::MAX as i64 && i32::MIN as i64 <= y && y
                    <= i32::MAX as i64
            },
        }
    }

    /// The pointer has moved to where it is now. Answers with the shape to give it, if it is to
    /// have another.
    #[verifier::spinoff_prover]
    fn pointer_moved(&mut self) -> (r: Option<Cursor>)
        requires
            old(self)@.wf(),
        ensures
            final(self)@ == old(self)@.moved(),
            final(self)@.wf(),
            r == (if final(self)@.cursor != old(self)@.cursor {
                final(self)@.cursor
            } else {
                None
            }),
    {
        let ghost before = self@;
        let on_button = self.button_under_pointer();
        let hover_changed = !same_button(self.hovered, on_button);
        self.hovered = on_button;
        let moved = if self.pressed.is_some() {
            false
        } else {
            self.selection.motion(self.at)
        };
        if moved {
            self.refresh_bar();
        }
        self.touch(moved || hover_changed);
        assert(self@.cursor_updated() == before.moved());
        self.update_cursor()
    }

    /// The left button has gone down.
    #[verifier::spinoff_prover]
    fn left_press(&mut self)
        requires
            old(self)@.wf(),
        ensures
            final(self)@ == old(self)@.left_pressed(),
            final(self)@.wf(),
    {
        let on_button = self.button_under_pointer();
        if on_button.is_some() {
            self.pressed = on_button;
            self.touch(true);
        } else if !self.pointer_on_bar() {
            let changed = self.selection.press(self.at);
            // The bar goes away for the duration of the drag.
            self.refresh_bar();
            self.touch(true);
            self.touch(changed);
        }
    }

    /// The left button has come up. Answers with the shape to give the pointer, if it is to have
    /// another.
    #[verifier::spinoff_prover]
    fn left_release(&mut self) -> (r: Option<Cursor>)
        requires
            old(self)@.wf(),
        ensures
            final(self)@ == old(self)@.left_released(),
            final(self)@.wf(),
            r == (if final(self)@.cursor != old(self)@.cursor {
                final(self)@.cursor
            } else {
                None
            }),
    {
        if let Some(pressed) = self.pressed {
            self.pressed = None;
            self.touch(true);
            if paint::is_button(self.hovered, pressed) {
                self.activate(pressed);
            }
            return None;
        }
        let changed = self.selection.release();
        self.refresh_bar();
        self.touch(true);
        self.touch(changed);
        self.update_cursor()
    }

    /// One pointer event. Answers with the shape to give the pointer, if it is to have another.
    #[verifier::spinoff_prover]
    pub fn pointer(&mut self, event: &PointerEvent) -> (r: Option<Cursor>)
        requires
            old(self)@.wf(),
            old(self)@.reaches(*event),
        ensures
            final(self)@ == old(self)@.pointed(*event),
            final(self)@.wf(),
            r == old(self)@.cursor_change(*event),
    {
        let Some(index) = event.pane else {
            return None;
        };
        let origin = self.panes[index].origin;
        self.at = Point::new(origin.0 + event.position.0, origin.1 + event.position.1);
        match event.kind {
            PointerKind::Enter | PointerKind::Motion => self.pointer_moved(),
            PointerKind::Leave => {
                let changed = self.hovered.is_some();
                self.hovered = None;
                self.touch(changed);
                None
            },
            PointerKind::Press(button) => {
                if button == BTN_LEFT {
                    self.left_press();
                }
                None
            },
            PointerKind::Release(button) => {
                if button == BTN_LEFT {
                    self.left_release()
                } else {
                    None
                }
            },
            PointerKind::Other => None,
        }
    }

    /// A run of pointer events. Answers with the shapes to give the pointer, one after the
    /// other.
    pub fn pointer_frame(&mut self, events: &Vec<PointerEvent>) -> (r: Vec<Cursor>)
        requires
            old(self)@.wf(),
            forall|i: int| 0 <= i < events@.len() ==> old(self)@.reaches(#[trigger] events@[i]),
        ensures
            final(self)@ == old(self)@.framed(events@),
            final(self)@.wf(),
            r@ == old(self)@.cursor_changes(events@),
    {
        let ghost before = self@;
        let mut cursors: Vec<Cursor> = Vec::new();
        let mut i: usize = 0;
        assert(events@.take(0) == Seq::<PointerEvent>::empty());
        while i < events.len()
            invariant
                i <= events@.len(),
                self@.wf(),
                self@ == before.framed(events@.take(i as int)),
                self@.panes == before.panes,
                cursors@ == before.cursor_changes(events@.take(i as int)),
                forall|j: int| 0 <= j < events@.len() ==> before.reaches(#[trigger] events@[j]),
            decreases events@.len() - i,
        {
            assert(events@.take(i + 1).drop_last() == events@.take(i as int));
            assert(events@.take(i + 1).last() == events@[i as int]);
            assert(before.reaches(events@[i as int]));
            if let Some(cursor) = self.pointer(&events[i]) {
                cursors.push(cursor);
            }
            i += 1;
        }
        assert(events@.take(i as int) == events@);
        cursors
    }

    /// An arrow key, in the direction of a step to one side.
    fn nudge(&mut self, dx: i32, dy: i32)
        requires
            old(self)@.wf(),
            -1 <= dx <= 1,
            -1 <= dy <= 1,
        ensures
            final(self)@ == old(self)@.arrow(dx as int, dy as int),
            final(self)@.wf(),
    {
        let step: i32 = if self.modifiers.shift { select::NUDGE_FAST } else { 1 };
        assert(-10 <= dx * step <= 10 && -10 <= dy * step <= 10) by (nonlinear_arith)
            requires
                -1 <= dx <= 1,
                -1 <= dy <= 1,
                1 <= step <= 10,
        ;
        let changed = self.selection.nudge(dx * step, dy * step, self.modifiers.ctrl);
        if changed {
            self.refresh_bar();
        }
        self.touch(changed);
    }

    /// Select the whole desktop.
    fn select_all(&mut self)
        requires
            old(self)@.wf(),
        ensures
            final(self)@ == old(self)@.reselected(old(self)@.selection.all_selected()),
            final(self)@.wf(),
    {
        let changed = self.selection.select_all();
        if changed {
            self.refresh_bar();
        }
        self.touch(changed);
    }

    /// One key press, however it arrived, by its X key symbol.
    pub fn on_key(&mut self, keysym: u32)
        requires
            old(self)@.wf(),
        ensures
            final(self)@ == old(self)@.keyed(keysym),
            final(self)@.wf(),
    {
        match Key::of(keysym) {
            Key::Escape => {
                self.choice = Some(Choice::Canceled);
            },
            Key::Enter => {
                if let Some(rect) = self.selection.rect() {
                    self.choice = Some(Choice::Save(rect));
                }
            },
            Key::C => {
                if self.modifiers.ctrl {
                    if let Some(rect) = self.selection.rect() {
                        self.choice = Some(Choice::Copy(rect));
                    }
                }
            },
            Key::A => {
                if self.modifiers.ctrl {
                    self.select_all();
                }
            },
            Key::Left => self.nudge(-1, 0),
            Key::Right => self.nudge(1, 0),
            Key::Up => self.nudge(0, -1),
            Key::Down => self.nudge(0, 1),
            Key::Other => {},
        }
    }

    /// Which modifier keys are held down now.
    pub fn update_modifiers(&mut self, modifiers: Modifiers)
        ensures
            final(self)@ == (AppState { modifiers, ..old(self)@ }),
            old(self)@.wf() ==> final(self)@.wf(),
    {
        self.modifiers = modifiers;
    }

    /// The compositor has said how big a pane is to be.
    pub fn configure(&mut self, pane: Option<usize>, size: (u32, u32))
        requires
            pane matches Some(index) ==> index < old(self)@.panes.len(),
        ensures
            final(self)@ == old(self)@.pane_configured(pane, size),
            old(self)@.wf() ==> final(self)@.wf(),
    {
        let Some(index) = pane else {
            return;
        };
        let mut next = self.panes[index];
        if size.0 != 0 && size.1 != 0 {
            next.width = #[verifier::truncate] (size.0 as i32);
            next.height = #[verifier::truncate] (size.1 as i32);
        }
        next.configured = true;
        self.panes.set(index, next);
        self.dirty = true;
    }

    /// The compositor took a surface away -- a monitor unplugged, or the session locking.
    ///
    /// There is no honest way to finish a selection whose screen has gone, so this ends the same
    /// way Escape does rather than saving a rectangle of somewhere that no longer is.
    pub fn closed(&mut self)
        ensures
            final(self)@ == (AppState { choice: Some(Choice::Canceled), ..old(self)@ }),
            old(self)@.wf() ==> final(self)@.wf(),
    {
        self.choice = Some(Choice::Canceled);
    }
}

/// Whatever event arrives, the overlay stays sound: the selection is on the desktop, and the bar
/// is the one that belongs to it -- so that there is never a bar while a drag is in progress,
/// and never one while nothing is selected.
#[verifier::spinoff_prover]
pub proof fn the_overlay_stays_sound(
    s: AppState,
    event: PointerEvent,
    keysym: u32,
    pane: Option<usize>,
    size: (u32, u32),
)
    requires
        s.wf(),
    ensures
        s.pointed(event).wf(),
        s.keyed(keysym).wf(),
        s.pane_configured(pane, size).wf(),
        s.bar is Some <==> s.selection.rect is Some && s.selection.drag is None,
{
    match event.pane {
        Some(index) => {
            let here = s.pointer_at(index as int, event.position);
            select::a_selection_stays_on_the_desktop(s.selection, here.at, 0, 0, false);
            assert(here.moved().wf());
            assert(here.left_pressed().wf());
            assert(here.left_released().wf());
        },
        None => {},
    }
    the_overlay_stays_sound_under_a_key(s, keysym);
}

/// A change of what is selected, within the same desktop and the same drag, leaves the overlay
/// sound.
proof fn a_new_selection_is_sound(s: AppState, selection: SelectionState)
    requires
        s.wf(),
        selection.wf(),
        selection.bounds == s.selection.bounds,
        selection.drag == s.selection.drag,
    ensures
        s.reselected(selection).wf(),
{
}

/// An arrow key leaves the overlay sound.
proof fn an_arrow_is_sound(s: AppState, dx: int, dy: int)
    requires
        s.wf(),
        -1 <= dx <= 1,
        -1 <= dy <= 1,
    ensures
        s.arrow(dx, dy).wf(),
{
    let (by_x, by_y) = (dx * s.step(), dy * s.step());
    assert(-10 <= by_x <= 10 && -10 <= by_y <= 10) by (nonlinear_arith)
        requires
            -1 <= dx <= 1,
            -1 <= dy <= 1,
            1 <= s.step() <= 10,
            by_x == dx * s.step(),
            by_y == dy * s.step(),
    ;
    let nudged = s.selection.nudged(by_x, by_y, s.modifiers.ctrl);
    select::a_selection_stays_on_the_desktop(
        s.selection,
        s.at,
        by_x as i32,
        by_y as i32,
        s.modifiers.ctrl,
    );
    a_new_selection_is_sound(s, nudged);
}

/// A key press leaves the overlay sound.
proof fn the_overlay_stays_sound_under_a_key(s: AppState, keysym: u32)
    requires
        s.wf(),
    ensures
        s.keyed(keysym).wf(),
{
    match Key::meant_by(keysym) {
        Key::Left => an_arrow_is_sound(s, -1, 0),
        Key::Right => an_arrow_is_sound(s, 1, 0),
        Key::Up => an_arrow_is_sound(s, 0, -1),
        Key::Down => an_arrow_is_sound(s, 0, 1),
        Key::A => {
            select::a_selection_stays_on_the_desktop(s.selection, s.at, 0, 0, false);
            a_new_selection_is_sound(s, s.selection.all_selected());
        },
        _ => {},
    }
}

/// A place on the desktop is the same place whichever pane an event reports it on, which is what
/// lets a band be dragged across the gap between two monitors.
pub proof fn a_place_is_the_same_on_every_pane(
    s: AppState,
    a: PointerEvent,
    b: PointerEvent,
    i: usize,
    j: usize,
)
    requires
        a.pane == Some(i) && b.pane == Some(j),
        s.reaches(a) && s.reaches(b),
        a.kind == b.kind,
        s.panes[i as int].origin.0 + a.position.0 == s.panes[j as int].origin.0 + b.position.0,
        s.panes[i as int].origin.1 + a.position.1 == s.panes[j as int].origin.1 + b.position.1,
    ensures
        s.pointed(a) == s.pointed(b),
{
}

/// A press anywhere on the bar leaves the selection, and any drag, exactly as they were: clicking
/// between two buttons starts no band under the bar.
pub proof fn a_press_on_the_bar_leaves_the_selection_alone(
    s: AppState,
    event: PointerEvent,
    index: usize,
)
    requires
        event.pane == Some(index),
        event.kind == PointerKind::Press(BTN_LEFT),
        ({
            let here = s.pointer_at(index as int, event.position);
            here.on_bar() || here.button_here() is Some
        }),
    ensures
        s.pointed(event).selection == s.selection,
        s.pointed(event).choice == s.choice,
        s.pointed(event).bar == s.bar,
{
}

/// While a button is held down, moving the pointer changes nothing that is selected.
pub proof fn a_held_button_owns_the_pointer(s: AppState, event: PointerEvent)
    requires
        s.pressed is Some,
        event.kind is Enter || event.kind is Motion || event.kind is Leave,
    ensures
        s.pointed(event).selection == s.selection,
        s.pointed(event).pressed == s.pressed,
        s.pointed(event).choice == s.choice,
{
}

/// The pointer answers only by letting go of the left button over the button it went down on; the
/// answer is then that button's, about what is selected.
#[verifier::spinoff_prover]
pub proof fn a_button_answers_only_when_released_over_itself(s: AppState, event: PointerEvent)
    requires
        s.pointed(event).choice != s.choice,
    ensures
        event.kind == PointerKind::Release(BTN_LEFT),
        s.pressed is Some && s.hovered == s.pressed,
        s.selection.rect matches Some(rect) && s.pointed(event).choice == Some(
            match s.pressed {
                Some(Button::Save) => Choice::Save(rect),
                Some(Button::Copy) => Choice::Copy(rect),
                _ => Choice::Canceled,
            },
        ),
{
}

/// Pressing a button and letting go on it gives its answer.
#[verifier::spinoff_prover]
pub proof fn a_click_on_a_button_is_its_answer(
    s: AppState,
    moved: PointerEvent,
    index: usize,
    button: Button,
)
    requires
        s.wf(),
        moved.pane == Some(index),
        moved.kind is Motion,
        s.pressed is None,
        s.pointer_at(index as int, moved.position).button_here() == Some(button),
    ensures
        ({
            let pressed = PointerEvent { kind: PointerKind::Press(BTN_LEFT), ..moved };
            let released = PointerEvent { kind: PointerKind::Release(BTN_LEFT), ..moved };
            let after = s.pointed(moved).pointed(pressed).pointed(released);
            &&& s.selection.rect is Some
            &&& after.choice == s.activated(button).choice
            &&& after.selection == s.selection
        }),
{
    assert(s.bar is Some);
    let here = s.pointer_at(index as int, moved.position);
    assert(s.selection.moved(here.at) == s.selection);
}

/// A press on a button is taken back by sliding off it before letting go.
#[verifier::spinoff_prover]
pub proof fn sliding_off_takes_a_press_back(
    s: AppState,
    moved: PointerEvent,
    released: PointerEvent,
    index: usize,
)
    requires
        s.pressed is Some,
        moved.pane == Some(index),
        moved.kind is Motion,
        s.pointer_at(index as int, moved.position).button_here() != s.pressed,
        released.kind == PointerKind::Release(BTN_LEFT),
        released.pane is Some,
    ensures
        s.pointed(moved).pointed(released).choice == s.choice,
        s.pointed(moved).pointed(released).pressed is None,
        s.pointed(moved).pointed(released).selection == s.selection,
{
}

/// Escape cancels, whatever else is going on, and so does losing a surface; Enter saves what is
/// selected and Ctrl+C copies it, and neither does anything while nothing is selected.
pub proof fn keys_answer(s: AppState, keysym: u32)
    ensures
        Key::meant_by(keysym) is Escape ==> s.keyed(keysym).choice == Some(Choice::Canceled),
        Key::meant_by(keysym) is Enter && s.selection.rect is Some ==> s.keyed(keysym).choice
            == Some(Choice::Save(s.selection.rect->0)),
        Key::meant_by(keysym) is C && s.modifiers.ctrl && s.selection.rect is Some ==> s.keyed(
            keysym,
        ).choice == Some(Choice::Copy(s.selection.rect->0)),
        s.selection.rect is None && !(Key::meant_by(keysym) is Escape) ==> s.keyed(keysym).choice
            == s.choice,
{
}

/// A change of what is selected answers nothing.
proof fn reselecting_answers_nothing(s: AppState, selection: SelectionState)
    ensures
        s.reselected(selection).choice == s.choice,
{
}

/// A key answers by canceling or about what is selected, or not at all.
#[verifier::spinoff_prover]
proof fn a_key_answers_about_what_is_selected(s: AppState, keysym: u32)
    ensures
        ({
            let choice = s.keyed(keysym).choice;
            ||| choice == s.choice
            ||| choice == Some(Choice::Canceled)
            ||| s.selection.rect matches Some(rect) && (choice == Some(Choice::Save(rect))
                || choice == Some(Choice::Copy(rect)))
        }),
{
    match Key::meant_by(keysym) {
        Key::Left => reselecting_answers_nothing(
            s,
            s.selection.nudged(-1 * s.step(), 0 * s.step(), s.modifiers.ctrl),
        ),
        Key::Right => reselecting_answers_nothing(
            s,
            s.selection.nudged(1 * s.step(), 0 * s.step(), s.modifiers.ctrl),
        ),
        Key::Up => reselecting_answers_nothing(
            s,
            s.selection.nudged(0 * s.step(), -1 * s.step(), s.modifiers.ctrl),
        ),
        Key::Down => reselecting_answers_nothing(
            s,
            s.selection.nudged(0 * s.step(), 1 * s.step(), s.modifiers.ctrl),
        ),
        Key::A => reselecting_answers_nothing(s, s.selection.all_selected()),
        _ => {},
    }
}

/// What is saved or copied is always part of the desktop, with at least one pixel in it.
#[verifier::spinoff_prover]
pub proof fn an_answer_is_part_of_the_desktop(s: AppState, event: PointerEvent, keysym: u32)
    requires
        s.wf(),
        s.choice matches Some(choice) ==> choice.is_part_of(s.selection.bounds),
    ensures
        s.pointed(event).choice matches Some(choice) ==> choice.is_part_of(s.selection.bounds),
        s.keyed(keysym).choice matches Some(choice) ==> choice.is_part_of(s.selection.bounds),
{
    let (pointed, keyed) = (s.pointed(event).choice, s.keyed(keysym).choice);
    assert(s.selection.rect matches Some(rect) ==> !rect.empty() && rect.within(
        s.selection.bounds,
    ));
    assert(pointed matches Some(choice) ==> choice.is_part_of(s.selection.bounds)) by {
        if pointed != s.choice {
            a_button_answers_only_when_released_over_itself(s, event);
        }
    }
    assert(keyed matches Some(choice) ==> choice.is_part_of(s.selection.bounds)) by {
        a_key_answers_about_what_is_selected(s, keysym);
    }
}

/// The button under a point is one of the bar's.
proof fn a_button_under_a_point_is_on_the_bar(buttons: Seq<(Button, Rect)>, px: int, py: int)
    ensures
        paint::button_under(buttons, px, py) matches Some(button) ==> exists|i: int|
            0 <= i < buttons.len() && (#[trigger] buttons[i]).0 == button,
    decreases buttons.len(),
{
    if buttons.len() > 0 {
        let rest = buttons.drop_first();
        a_button_under_a_point_is_on_the_bar(rest, px, py);
        if buttons[0].1.covers(px, py) {
            assert(buttons[0].0 == buttons[0].0);
        } else if paint::button_under(rest, px, py) is Some {
            let button = paint::button_under(rest, px, py)->0;
            let i = choose|i: int| 0 <= i < rest.len() && (#[trigger] rest[i]).0 == button;
            assert(buttons[i + 1] == rest[i]);
        }
    }
}

/// Copy is no button of the bar where the compositor has no clipboard to copy to: it is never
/// under the pointer, so it can never be pressed.
pub proof fn copy_is_not_offered_where_it_cannot_work(s: AppState)
    requires
        s.wf(),
        !s.can_copy,
    ensures
        s.button_here() != Some(Button::Copy),
{
    if let Some(bar) = s.bar {
        let offered = offer(s.can_copy);
        let buttons = offered.buttons();
        a_button_under_a_point_is_on_the_bar(bar.buttons, s.at.x as int, s.at.y as int);
        if s.button_here() == Some(Button::Copy) {
            let i = choose|i: int|
                0 <= i < bar.buttons.len() && (#[trigger] bar.buttons[i]).0 == Button::Copy;
            assert(bar.buttons[i].0 == buttons[i]);
            Button::ORDER@.lemma_filter_pred(|button: Button| offered.has(button), i);
        }
    }
}

/// What each key symbol is about, by its number.
pub proof fn what_a_key_symbol_is_about(keysym: u32)
    ensures
        Key::meant_by(keysym) is Escape <==> keysym == 0xff1b,
        Key::meant_by(keysym) is Enter <==> keysym == 0xff0d || keysym == 0xff8d,
        Key::meant_by(keysym) is A <==> keysym == 0x61 || keysym == 0x41,
        Key::meant_by(keysym) is C <==> keysym == 0x63 || keysym == 0x43,
        Key::meant_by(keysym) is Left <==> keysym == 0xff51 || keysym == 0xff96,
        Key::meant_by(keysym) is Up <==> keysym == 0xff52 || keysym == 0xff97,
        Key::meant_by(keysym) is Right <==> keysym == 0xff53 || keysym == 0xff98,
        Key::meant_by(keysym) is Down <==> keysym == 0xff54 || keysym == 0xff99,
{
}

/// What each key does to what is selected: an arrow nudges it the way it points, by one pixel and
/// by ten with Shift, and resizes it with Ctrl; Ctrl+A selects everything; and no other key changes
/// it. No key starts or ends a drag.
#[verifier::spinoff_prover]
pub proof fn what_a_key_selects(s: AppState, keysym: u32)
    ensures
        ({
            let step = if s.modifiers.shift {
                10int
            } else {
                1int
            };
            let resize = s.modifiers.ctrl;
            let after = s.keyed(keysym).selection;
            &&& keysym == 0xff51 || keysym == 0xff96 ==> after == s.selection.nudged(
                -step,
                0,
                resize,
            )
            &&& keysym == 0xff53 || keysym == 0xff98 ==> after == s.selection.nudged(
                step,
                0,
                resize,
            )
            &&& keysym == 0xff52 || keysym == 0xff97 ==> after == s.selection.nudged(
                0,
                -step,
                resize,
            )
            &&& keysym == 0xff54 || keysym == 0xff99 ==> after == s.selection.nudged(
                0,
                step,
                resize,
            )
            &&& (keysym == 0x61 || keysym == 0x41) && s.modifiers.ctrl ==> after
                == s.selection.all_selected()
            &&& (keysym == 0x61 || keysym == 0x41) && !s.modifiers.ctrl ==> after == s.selection
            &&& !(0xff51 <= keysym <= 0xff54) && !(0xff96 <= keysym <= 0xff99) && keysym != 0x61
                && keysym != 0x41 ==> after == s.selection
        }),
{
    let step = s.step();
    assert(-1 * step == -step && 1 * step == step && 0 * step == 0) by (nonlinear_arith);
}

/// What each key answers: Escape cancels; Enter saves what is selected and Ctrl+C copies it, where
/// something is; and no other key answers.
#[verifier::spinoff_prover]
pub proof fn what_a_key_answers(s: AppState, keysym: u32)
    ensures
        ({
            let after = s.keyed(keysym).choice;
            &&& keysym == 0xff1b ==> after == Some(Choice::Canceled)
            &&& keysym == 0xff0d || keysym == 0xff8d ==> after == (match s.selection.rect {
                Some(rect) => Some(Choice::Save(rect)),
                None => s.choice,
            })
            &&& (keysym == 0x63 || keysym == 0x43) && s.modifiers.ctrl ==> after == (
            match s.selection.rect {
                Some(rect) => Some(Choice::Copy(rect)),
                None => s.choice,
            })
            &&& (keysym == 0x63 || keysym == 0x43) && !s.modifiers.ctrl ==> after == s.choice
            &&& keysym != 0xff1b && keysym != 0xff0d && keysym != 0xff8d && keysym != 0x63 && keysym
                != 0x43 ==> after == s.choice
        }),
{
    match Key::meant_by(keysym) {
        Key::Left => reselecting_answers_nothing(
            s,
            s.selection.nudged(-1 * s.step(), 0 * s.step(), s.modifiers.ctrl),
        ),
        Key::Right => reselecting_answers_nothing(
            s,
            s.selection.nudged(1 * s.step(), 0 * s.step(), s.modifiers.ctrl),
        ),
        Key::Up => reselecting_answers_nothing(
            s,
            s.selection.nudged(0 * s.step(), -1 * s.step(), s.modifiers.ctrl),
        ),
        Key::Down => reselecting_answers_nothing(
            s,
            s.selection.nudged(0 * s.step(), 1 * s.step(), s.modifiers.ctrl),
        ),
        Key::A => reselecting_answers_nothing(s, s.selection.all_selected()),
        _ => {},
    }
}

/// What a motion does: the pointer is where the pane is and as far into it as the event says, what
/// is under it is hovered, and, while no button is held down, a drag follows it. It answers
/// nothing, holds no button down and lets none go.
#[verifier::spinoff_prover]
pub proof fn what_a_motion_does(s: AppState, event: PointerEvent, index: usize)
    requires
        event.pane == Some(index),
        event.kind is Motion || event.kind is Enter,
        s.reaches(event),
    ensures
        ({
            let after = s.pointed(event);
            &&& after.at.x == s.panes[index as int].origin.0 + event.position.0
            &&& after.at.y == s.panes[index as int].origin.1 + event.position.1
            &&& after.hovered == (match s.bar {
                Some(bar) => paint::button_under(bar.buttons, after.at.x as int, after.at.y as int),
                None => None,
            })
            &&& s.pressed is Some ==> after.selection == s.selection
            &&& s.pressed is None ==> after.selection == s.selection.moved(after.at)
            &&& after.pressed == s.pressed
            &&& after.choice == s.choice
            &&& after.panes == s.panes && after.modifiers == s.modifiers
            &&& after.selection.rect != s.selection.rect || after.hovered != s.hovered
                ==> after.dirty
            &&& after.selection.rect == s.selection.rect && after.hovered == s.hovered
                ==> after.dirty == s.dirty
            &&& after.cursor == Some(
                wanted_cursor(
                    after.selection.grip_at(after.at),
                    after.bar matches Some(bar) && 0 <= after.at.x - bar.rect.x < bar.rect.w && 0
                        <= after.at.y - bar.rect.y < bar.rect.h,
                ),
            )
        }),
{
}

/// What a press of the left button does: over a button it holds that down; elsewhere on the bar it
/// does nothing; and anywhere else it starts what the point is over, and the bar goes away. It
/// answers nothing and selects nothing by itself.
#[verifier::spinoff_prover]
pub proof fn what_a_press_does(s: AppState, event: PointerEvent, index: usize)
    requires
        event.pane == Some(index),
        event.kind == PointerKind::Press(0x110),
        s.reaches(event),
    ensures
        ({
            let after = s.pointed(event);
            let under = match s.bar {
                Some(bar) => paint::button_under(bar.buttons, after.at.x as int, after.at.y as int),
                None => None,
            };
            let on_bar = s.bar matches Some(bar) && 0 <= after.at.x - bar.rect.x < bar.rect.w && 0
                <= after.at.y - bar.rect.y < bar.rect.h;
            &&& after.at.x == s.panes[index as int].origin.0 + event.position.0
            &&& after.at.y == s.panes[index as int].origin.1 + event.position.1
            &&& after.choice == s.choice && after.hovered == s.hovered && after.cursor == s.cursor
            &&& after.selection.rect == s.selection.rect
            &&& under is Some ==> after.pressed == under && after.selection == s.selection
                && after.bar == s.bar && after.dirty
            &&& under is None ==> after.pressed == s.pressed
            &&& under is None && on_bar ==> after.selection == s.selection && after.bar == s.bar
                && after.dirty == s.dirty
            &&& under is None && !on_bar ==> after.selection == s.selection.pressed(after.at)
                && after.bar is None && after.dirty
        }),
{
}

/// What letting go of the left button does: where one was held down it is let go, and answers if
/// the pointer is still over it, about what is selected; and otherwise any drag is over and the bar
/// is back where something is selected.
#[verifier::spinoff_prover]
pub proof fn what_letting_go_does(s: AppState, event: PointerEvent, index: usize)
    requires
        event.pane == Some(index),
        event.kind == PointerKind::Release(0x110),
    ensures
        ({
            let after = s.pointed(event);
            &&& after.pressed is None
            &&& after.dirty
            &&& after.hovered == s.hovered
            &&& s.pressed is Some ==> after.selection == s.selection && after.bar == s.bar
                && after.cursor == s.cursor
            &&& s.pressed is Some && s.hovered != s.pressed ==> after.choice == s.choice
            &&& s.pressed is Some && s.hovered == s.pressed ==> after.choice == (
            match s.selection.rect {
                None => s.choice,
                Some(rect) => match s.pressed {
                    Some(Button::Save) => Some(Choice::Save(rect)),
                    Some(Button::Copy) => Some(Choice::Copy(rect)),
                    _ => Some(Choice::Canceled),
                },
            })
            &&& s.pressed is None ==> after.choice == s.choice && after.selection.rect
                == s.selection.rect && after.selection.bounds == s.selection.bounds
                && after.selection.drag is None && (after.bar is Some <==> s.selection.rect is Some)
            &&& s.pressed is None ==> after.cursor == Some(
                wanted_cursor(
                    after.selection.grip_at(after.at),
                    after.bar matches Some(bar) && 0 <= after.at.x - bar.rect.x < bar.rect.w && 0
                        <= after.at.y - bar.rect.y < bar.rect.h,
                ),
            )
        }),
{
}

/// What any other pointer event does: leaving a pane hovers nothing any more, and everything else,
/// such as another button or a wheel, does nothing but say where the pointer is. An event on no
/// pane does nothing at all.
#[verifier::spinoff_prover]
pub proof fn what_other_events_do(s: AppState, event: PointerEvent)
    requires
        !(event.kind is Motion) && !(event.kind is Enter),
        event.kind != PointerKind::Press(0x110),
        event.kind != PointerKind::Release(0x110),
    ensures
        ({
            let after = s.pointed(event);
            &&& event.pane is None ==> after == s
            &&& after.selection == s.selection && after.bar == s.bar
            &&& after.pressed == s.pressed && after.choice == s.choice
            &&& after.cursor == s.cursor
            &&& event.kind is Leave && event.pane is Some ==> after.hovered is None && after.dirty
                == (s.dirty || s.hovered is Some)
            &&& !(event.kind is Leave) ==> after.hovered == s.hovered && after.dirty == s.dirty
        }),
{
}

/// An event on no pane does nothing at all, whatever it is.
pub proof fn an_event_on_no_pane_does_nothing(s: AppState, event: PointerEvent)
    requires
        event.pane is None,
    ensures
        s.pointed(event) == s,
{
}

/// A run of events does what they do one after the other, and gives the pointer each shape that is
/// another than the one before it.
pub proof fn a_run_of_events_is_one_after_the_other(
    s: AppState,
    events: Seq<PointerEvent>,
    event: PointerEvent,
)
    ensures
        s.framed(Seq::empty()) == s,
        s.cursor_changes(Seq::empty()).len() == 0,
        s.framed(events.push(event)) == s.framed(events).pointed(event),
        ({
            let (before, after) = (s.framed(events), s.framed(events).pointed(event));
            &&& after.cursor == before.cursor || after.cursor is None ==> s.cursor_changes(
                events.push(event),
            ) == s.cursor_changes(events)
            &&& after.cursor != before.cursor && after.cursor is Some ==> s.cursor_changes(
                events.push(event),
            ) == s.cursor_changes(events).push(after.cursor->0)
        }),
{
    assert(events.push(event).drop_last() == events);
    assert(events.push(event).last() == event);
}

/// The shape of the pointer says what is under it: an arrow over the bar, a cross over bare
/// desktop, the sign for moving over the inside of a selection, and over a handle the one that
/// points the way it moves.
pub proof fn the_pointer_shows_what_is_under_it(grip: Grip, on_bar: bool)
    ensures
        on_bar ==> wanted_cursor(grip, on_bar) is Default,
        !on_bar && grip is Outside ==> wanted_cursor(grip, on_bar) is Crosshair,
        !on_bar && grip is Inside ==> wanted_cursor(grip, on_bar) is Move,
        !on_bar ==> (grip matches Grip::Handle(handle) ==> {
            let shape = wanted_cursor(grip, on_bar);
            &&& handle.moves_top() <==> shape is NwResize || shape is NResize || shape is NeResize
            &&& handle.moves_bottom() <==> shape is SwResize || shape is SResize || shape
                is SeResize
            &&& handle.moves_left() <==> shape is NwResize || shape is WResize || shape is SwResize
            &&& handle.moves_right() <==> shape is NeResize || shape is EResize || shape is SeResize
        }),
{
}

/// A monitor is where `xdg_output` says, and where `wl_output` says only without that; it has the
/// name that it was given.
pub proof fn where_a_monitor_is(info: OutputInfo, name: Seq<char>)
    ensures
        info.logical_position matches Some(position) ==> info.place() == position,
        info.logical_position is None ==> info.place() == info.location,
        info.is_named(name) <==> info.name is Some && info.name->0@ == name,
        name_of(None) is None,
        info.name is None ==> name_of(Some(info)) is None,
        info.name is Some ==> name_of(Some(info)) == Some(info.name->0@),
{
}

/// The monitor of a name is the first that has it.
pub proof fn the_first_monitor_of_a_name(
    outputs: Seq<Option<OutputInfo>>,
    name: Seq<char>,
    i: int,
)
    requires
        0 <= i <= outputs.len(),
        forall|k: int|
            0 <= k < i ==> !((#[trigger] outputs[k]) is Some && outputs[k]->0.name is Some
                && outputs[k]->0.name->0@ == name),
        i < outputs.len() ==> outputs[i] is Some && outputs[i]->0.name is Some
            && outputs[i]->0.name->0@ == name,
    ensures
        i == outputs.len() ==> first_named(outputs, name) is None,
        i < outputs.len() ==> first_named(outputs, name) == outputs[i],
    decreases outputs.len(),
{
    if i > 0 {
        let rest = outputs.drop_first();
        assert(!(outputs[0] is Some && outputs[0]->0.name is Some && outputs[0]->0.name->0@
            == name));
        assert forall|k: int| 0 <= k < i - 1 implies !((#[trigger] rest[k]) is Some
            && rest[k]->0.name is Some && rest[k]->0.name->0@ == name) by {
            assert(rest[k] == outputs[k + 1]);
        }
        if i < outputs.len() {
            assert(rest[i - 1] == outputs[i]);
        }
        the_first_monitor_of_a_name(rest, name, i - 1);
    }
}

/// A monitor is warned about if and only if it is known, has a size on the desktop and was captured
/// at another; the warning gives its name, both sizes and its scale.
pub proof fn which_monitors_are_warned_about(
    outputs: Seq<Option<OutputInfo>>,
    name: Seq<char>,
    width: i32,
    height: i32,
)
    ensures
        first_named(outputs, name) is None ==> warning(outputs, name, width, height) is None,
        first_named(outputs, name) matches Some(info) ==> {
            &&& info.logical_size is None || info.logical_size == Some((width, height)) ==> warning(
                outputs,
                name,
                width,
                height,
            ) is None
            &&& info.logical_size matches Some(size) ==> (size != (width, height) ==> warning(
                outputs,
                name,
                width,
                height,
            ) == Some(
                name + " is "@ + text::signed_decimal(width as int) + "x"@ + text::signed_decimal(
                    height as int,
                ) + " pixels but "@ + text::signed_decimal(size.0 as int) + "x"@
                    + text::signed_decimal(size.1 as int) + " logical (scale "@
                    + text::signed_decimal(info.scale_factor as int)
                    + "); this program draws at scale 1, so the overlay on that monitor will not line up"@,
            ))
        },
{
}

/// The region of a monitor is the first whose corner is where the monitor is.
pub proof fn the_first_region_at_a_place(regions: Seq<Region>, origin: (i32, i32), i: int)
    requires
        0 <= i <= regions.len(),
        forall|k: int|
            0 <= k < i ==> !((#[trigger] regions[k]).rect.x == origin.0 && regions[k].rect.y
                == origin.1),
        i < regions.len() ==> regions[i].rect.x == origin.0 && regions[i].rect.y == origin.1,
    ensures
        i == regions.len() ==> region_at(regions, origin) is None,
        i < regions.len() ==> region_at(regions, origin) == Some(regions[i].rect),
    decreases regions.len(),
{
    if i > 0 {
        let rest = regions.drop_first();
        assert(!(regions[0].rect.x == origin.0 && regions[0].rect.y == origin.1));
        assert forall|k: int| 0 <= k < i - 1 implies !((#[trigger] rest[k]).rect.x == origin.0
            && rest[k].rect.y == origin.1) by {
            assert(rest[k] == regions[k + 1]);
        }
        if i < regions.len() {
            assert(rest[i - 1] == regions[i]);
        }
        the_first_region_at_a_place(rest, origin, i - 1);
    }
}

/// One more monitor adds a pane after those before it if it is known and was captured: where it is,
/// and as big as its capture; and none otherwise.
pub proof fn one_more_monitor_adds_its_pane(
    outputs: Seq<Option<OutputInfo>>,
    output: Option<OutputInfo>,
    regions: Seq<Region>,
)
    requires
        outputs.len() <= usize::MAX,
    ensures
        panes_on(Seq::empty(), regions).len() == 0,
        output is None ==> panes_on(outputs.push(output), regions) == panes_on(outputs, regions),
        output matches Some(info) ==> {
            &&& region_at(regions, info.place()) is None ==> panes_on(outputs.push(output), regions)
                == panes_on(outputs, regions)
            &&& region_at(regions, info.place()) matches Some(rect) ==> panes_on(
                outputs.push(output),
                regions,
            ) == panes_on(outputs, regions).push(
                Pane {
                    output: outputs.len() as usize,
                    origin: info.place(),
                    width: rect.w,
                    height: rect.h,
                    configured: false,
                },
            )
        },
{
    let more = outputs.push(output);
    assert(more.drop_last() == outputs);
    assert(more.last() == output);
    let before = panes_on(outputs, regions);
    assert(before + Seq::<Pane>::empty() == before);
    if let Some(info) = output {
        if let Some(rect) = region_at(regions, info.place()) {
            let pane = Pane {
                output: outputs.len() as usize,
                origin: info.place(),
                width: rect.w,
                height: rect.h,
                configured: false,
            };
            assert(before + seq![pane] == before.push(pane));
        }
    }
}

/// The pixels of panes take four bytes each.
pub proof fn panes_take_four_bytes_a_pixel(panes: Seq<Pane>, pane: Pane)
    ensures
        pane_bytes(Seq::empty()) == 0,
        pane_bytes(panes.push(pane)) == pane_bytes(panes) + 4 * (pane.width * pane.height),
        panes_have_areas(panes) <==> forall|i: int|
            0 <= i < panes.len() ==> 0 <= (#[trigger] panes[i]).width * panes[i].height,
{
    assert(panes.push(pane).drop_last() == panes);
    let (w, h) = (pane.width as int, pane.height as int);
    assert(w * h * 4 == 4 * (w * h)) by (nonlinear_arith);
}

/// The panes that are drawn are those that have been configured, in their order.
pub proof fn the_configured_panes_are_drawn(panes: Seq<Pane>, pane: Pane)
    ensures
        configured(Seq::empty()).len() == 0,
        pane.configured ==> configured(panes.push(pane)) == configured(panes).push(
            panes.len() as usize,
        ),
        !pane.configured ==> configured(panes.push(pane)) == configured(panes),
{
    assert(panes.push(pane).drop_last() == panes);
    assert(panes.push(pane).last() == pane);
}

/// A pane that is configured takes the size that the compositor says, and keeps its own where that
/// says a zero; every other pane stays as it was.
pub proof fn a_pane_takes_the_size_it_is_given(
    s: AppState,
    index: usize,
    size: (u32, u32),
    other: int,
)
    requires
        index < s.panes.len(),
        size.0 <= 0x7fff_ffff,
        size.1 <= 0x7fff_ffff,
        0 <= other < s.panes.len(),
    ensures
        ({
            let after = s.pane_configured(Some(index), size);
            let (pane, before) = (after.panes[index as int], s.panes[index as int]);
            &&& after.dirty && after.panes.len() == s.panes.len()
            &&& pane.configured && pane.origin == before.origin && pane.output == before.output
            &&& size.0 > 0 && size.1 > 0 ==> pane.width == size.0 && pane.height == size.1
            &&& size.0 == 0 || size.1 == 0 ==> pane.width == before.width && pane.height
                == before.height
            &&& other != index ==> after.panes[other] == s.panes[other]
            &&& after.selection == s.selection && after.choice == s.choice && after.bar == s.bar
        }),
        s.pane_configured(None, size) == s,
{
}

/// The bar belongs to the selection: there is one if and only if something is selected and no drag
/// is in progress, laid out for that selection on that desktop, with Save, Cancel and, where there
/// is a clipboard to copy to, Copy.
pub proof fn the_bar_belongs_to_the_selection(s: AppState)
    ensures
        s.selection.rect is None || s.selection.drag is Some ==> s.shown_bar() is None,
        s.selection.rect matches Some(rect) ==> (s.selection.drag is None ==> s.shown_bar() == Some(
            paint::laid_out(
                rect,
                s.selection.bounds,
                s.metrics,
                if s.can_copy {
                    seq![Button::Save, Button::Copy, Button::Cancel]
                } else {
                    seq![Button::Save, Button::Cancel]
                },
            ),
        )),
        s.refreshed() == (AppState { bar: s.shown_bar(), ..s }),
{
    paint::the_order_of_the_buttons(offer(s.can_copy));
    assert(offer(s.can_copy).buttons() == (if s.can_copy {
        seq![Button::Save, Button::Copy, Button::Cancel]
    } else {
        seq![Button::Save, Button::Cancel]
    }));
}

/// An event reaches the overlay if it is on no pane, or on one that there is, at a place that a
/// coordinate can name.
pub proof fn which_events_reach_the_overlay(s: AppState, event: PointerEvent)
    ensures
        event.pane is None ==> s.reaches(event),
        event.pane matches Some(index) ==> (s.reaches(event) <==> index < s.panes.len()
            && -0x8000_0000 <= s.panes[index as int].origin.0 + event.position.0 <= 0x7fff_ffff
            && -0x8000_0000 <= s.panes[index as int].origin.1 + event.position.1 <= 0x7fff_ffff),
{
}

/// A key that changes what is selected has the panes drawn again and the bar moved with it; one that
/// does not leaves both as they were. No key moves the pointer, holds a button down or lets one go.
#[verifier::spinoff_prover]
pub proof fn a_key_redraws_what_it_changes(s: AppState, keysym: u32)
    ensures
        ({
            let after = s.keyed(keysym);
            &&& after.selection.rect != s.selection.rect ==> after.dirty && after.bar
                == after.shown_bar()
            &&& after.selection.rect == s.selection.rect ==> after.dirty == s.dirty && after.bar
                == s.bar
            &&& after.at == s.at && after.cursor == s.cursor
            &&& after.hovered == s.hovered && after.pressed == s.pressed
            &&& after.panes == s.panes && after.modifiers == s.modifiers
            &&& after.regions == s.regions && after.can_copy == s.can_copy && after.dim == s.dim
        }),
{
}

/// An overlay is sound if and only if its selection is, its desktop has room for the bar, and its
/// bar is the one that belongs to the selection.
pub proof fn what_holds_of_every_overlay(s: AppState)
    ensures
        s.wf() <==> s.selection.wf() && s.bar == s.shown_bar() && paint::bar_fits(
            s.selection.bounds,
            s.metrics,
            if s.can_copy {
                seq![Button::Save, Button::Copy, Button::Cancel]
            } else {
                seq![Button::Save, Button::Cancel]
            },
        ),
{
    paint::the_order_of_the_buttons(offer(s.can_copy));
    assert(offer(s.can_copy).buttons() == (if s.can_copy {
        seq![Button::Save, Button::Copy, Button::Cancel]
    } else {
        seq![Button::Save, Button::Cancel]
    }));
}

} // verus!
