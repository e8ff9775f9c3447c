//! The selection rectangle, and everything that can be done to it.
//!
//! Pure state: this takes pointer positions and key presses and gives back whether anything
//! changed, so the whole interaction can be exercised without a compositor.
//!
//! Coordinates are **global**: the desktop is one plane spanning every monitor, and this never
//! learns there is more than one. See [`crate::shot`].
//!
//! ## The rules
//!
//! - Pressing bare desktop starts a new band. Dragging up and to the left is as valid as down
//!   and to the right, so the rectangle is normalized as it goes.
//! - Pressing a handle resizes from the opposite corner or edge.
//! - Pressing inside moves the whole rectangle. Its middle is inside however small it is.
//! - Arrow keys nudge, and with Shift they nudge by ten.
//! - Everything is clamped to the desktop. A selection off the edge would crop to black, and
//!   the user would not find out until they looked at the file.

use crate::geometry;
use crate::geometry::Rect;
use vstd::prelude::*;

verus! {

/// How far from a handle's center still counts as grabbing it.
///
/// Larger than the handle is drawn: a target the size of its own artwork is a target most
/// people miss, and the cost of being generous is only that the outer few pixels of a small
/// selection resize instead of moving.
pub const HANDLE_GRAB: i32 = 11;

/// How far the pointer must travel after a press before a new band exists at all.
///
/// Without it a click with a shaky hand leaves a two-pixel selection.
pub const DRAG_THRESHOLD: i32 = 3;

/// How far Shift+arrow moves, against one pixel for a bare arrow.
pub const NUDGE_FAST: i32 = 10;

/// A point on the desktop, in global coordinates.
#[derive(Debug, Clone, Copy, PartialEq, Eq, Structural)]
pub struct Point {
    pub x: i32,
    pub y: i32,
}

impl Point {
    pub fn new(x: i32, y: i32) -> (r: Point)
        ensures
            r == (Point { x, y }),
    {
        Point { x, y }
    }
}

/// Which of the eight handles, named by the corner or edge it sits on.
#[derive(Debug, Clone, Copy, PartialEq, Eq, Structural)]
pub enum Handle {
    TopLeft,
    Top,
    TopRight,
    Left,
    Right,
    BottomLeft,
    Bottom,
    BottomRight,
}

/// Half of `n`, rounded toward zero.
pub open spec fn half(n: int) -> int {
    if n >= 0 { n / 2 } else { -((-n) / 2) }
}

/// Half of `n`, rounded toward zero.
pub(crate) fn halved(n: i64) -> (r: i64)
    requires
        n > i64::MIN,
    ensures
        r == half(n as int),
{
    if n >= 0 {
        n / 2
    } else {
        -((-n) / 2)
    }
}

impl Handle {
    /// Every handle, in the order they are drawn and hit-tested.
    ///
    /// Corners first, so that where a corner and an edge handle overlap -- which they do on a
    /// selection narrower than two grab radii -- the corner wins. Resizing a thin selection by
    /// its corner keeps both axes reachable; by its edge, one of them is stuck.
    pub const ALL: [Handle; 8] = [
        Handle::TopLeft,
        Handle::TopRight,
        Handle::BottomLeft,
        Handle::BottomRight,
        Handle::Top,
        Handle::Bottom,
        Handle::Left,
        Handle::Right,
    ];

    /// Whether this handle moves the left edge.
    pub open spec fn moves_left(self) -> bool {
        self is TopLeft || self is Left || self is BottomLeft
    }

    /// Whether this handle moves the right edge.
    pub open spec fn moves_right(self) -> bool {
        self is TopRight || self is Right || self is BottomRight
    }

    /// Whether this handle moves the top edge.
    pub open spec fn moves_top(self) -> bool {
        self is TopLeft || self is Top || self is TopRight
    }

    /// Whether this handle moves the bottom edge.
    pub open spec fn moves_bottom(self) -> bool {
        self is BottomLeft || self is Bottom || self is BottomRight
    }

    /// Whether this handle sits on a corner rather than on an edge.
    pub open spec fn is_corner(self) -> bool {
        (self.moves_left() || self.moves_right()) && (self.moves_top() || self.moves_bottom())
    }

    /// The column this handle sits on: the first or the last one *inside* the rectangle, or the
    /// middle one.
    pub open spec fn column(self, rect: Rect) -> int {
        if self.moves_left() {
            rect.x as int
        } else if self.moves_right() {
            rect.right_edge() - 1
        } else {
            rect.x + half(rect.w as int)
        }
    }

    /// The row this handle sits on.
    pub open spec fn row(self, rect: Rect) -> int {
        if self.moves_top() {
            rect.y as int
        } else if self.moves_bottom() {
            rect.bottom_edge() - 1
        } else {
            rect.y + half(rect.h as int)
        }
    }

    /// Where this handle sits on a rectangle.
    ///
    /// The last pixel *inside* the rectangle, not the exclusive edge -- a handle drawn one pixel
    /// outside the selection reads as belonging to whatever is next to it.
    pub fn centre(self, rect: Rect) -> (r: Point)
        requires
            rect.fits(),
            rect.right_edge() > i32::MIN,
            rect.bottom_edge() > i32::MIN,
        ensures
            r.x == self.column(rect),
            r.y == self.row(rect),
    {
        let (left, top) = (rect.left(), rect.top());
        let (right, bottom) = (rect.right() - 1, rect.bottom() - 1);
        let mid_x: i32 = (left as i64 + halved(rect.w as i64)) as i32;
        let mid_y: i32 = (top as i64 + halved(rect.h as i64)) as i32;
        match self {
            Handle::TopLeft => Point::new(left, top),
            Handle::Top => Point::new(mid_x, top),
            Handle::TopRight => Point::new(right, top),
            Handle::Left => Point::new(left, mid_y),
            Handle::Right => Point::new(right, mid_y),
            Handle::BottomLeft => Point::new(left, bottom),
            Handle::Bottom => Point::new(mid_x, bottom),
            Handle::BottomRight => Point::new(right, bottom),
        }
    }

    /// Whether this handle moves the left, right, top or bottom edge.
    pub fn edges(self) -> (r: (bool, bool, bool, bool))
        ensures
            r.0 == self.moves_left(),
            r.1 == self.moves_right(),
            r.2 == self.moves_top(),
            r.3 == self.moves_bottom(),
    {
        match self {
            Handle::TopLeft => (true, false, true, false),
            Handle::Top => (false, false, true, false),
            Handle::TopRight => (false, true, true, false),
            Handle::Left => (true, false, false, false),
            Handle::Right => (false, true, false, false),
            Handle::BottomLeft => (true, false, false, true),
            Handle::Bottom => (false, false, false, true),
            Handle::BottomRight => (false, true, false, true),
        }
    }
}

/// The grab radius for a selection of this size.
pub open spec fn radius(rect: Rect) -> int {
    let fitting = geometry::min(rect.w as int / 6, rect.h as int / 6);
    geometry::max(2, geometry::min(HANDLE_GRAB as int, fitting))
}

/// How far from a handle's centre counts as grabbing it, for a selection this size.
///
/// [`HANDLE_GRAB`] on anything roomy, and less on a small one. Eight fixed-size grab areas on a
/// 40-pixel selection leave a sixteen-pixel square in the middle that means "move me", and a
/// user who cannot find it concludes the selection cannot be moved at all. Shrinking the grab
/// area instead, and leaving the middle to [`Grip::Inside`] whatever surrounds it, keeps every
/// gesture reachable at every size.
pub fn grab_radius(rect: Rect) -> (r: i32)
    ensures
        r == radius(rect),
{
    let by_w: i32 = if rect.w > 0 { rect.w / 6 } else { 0 };
    let by_h: i32 = if rect.h > 0 { rect.h / 6 } else { 0 };
    let mut r: i32 = HANDLE_GRAB;
    if by_w < r {
        r = by_w;
    }
    if by_h < r {
        r = by_h;
    }
    if r < 2 {
        r = 2;
    }
    r
}

/// What is under the pointer, which decides both the cursor and what a press would do.
#[derive(Debug, Clone, Copy, PartialEq, Eq, Structural)]
pub enum Grip {
    /// A handle: pressing resizes.
    Handle(Handle),
    /// Inside the selection: pressing moves the whole thing.
    Inside,
    /// Bare desktop: pressing starts a new band.
    Outside,
}

/// What a press started.
#[derive(Debug, Clone, Copy, PartialEq, Eq)]
pub enum Drag {
    /// Pulling out a new rectangle from `anchor`.
    ///
    /// `live` is false until the pointer has traveled [`DRAG_THRESHOLD`], which is what keeps
    /// a click from replacing a good selection with a two-pixel one.
    Band { anchor: Point, live: bool },
    /// Resizing, with the opposite corner or edge held still.
    Resize { handle: Handle, fixed: Rect },
    /// Moving the whole rectangle. `grab` is where in the rectangle the press landed, so it
    /// travels under the pointer rather than jumping its top-left corner there.
    Move { grab: Point, size: (i32, i32) },
}

/// The part of the columns `left..right` and the rows `top..bottom` that is on the desktop, or
/// nothing when that part holds no pixel.
pub open spec fn clipped(bounds: Rect, left: int, top: int, right: int, bottom: int) -> Option<
    Rect,
> {
    let x = geometry::max(left, bounds.x as int);
    let y = geometry::max(top, bounds.y as int);
    let x_end = geometry::min(right, bounds.right_edge());
    let y_end = geometry::min(bottom, bounds.bottom_edge());
    if x < x_end && y < y_end {
        Some(Rect { x: x as i32, y: y as i32, w: (x_end - x) as i32, h: (y_end - y) as i32 })
    } else {
        None
    }
}

/// The left, top, right and bottom edge of a rectangle one of whose corners is `(ax, ay)` and the
/// other `(bx, by)`, whichever way round those are.
pub open spec fn normalized(ax: int, ay: int, bx: int, by: int) -> (int, int, int, int) {
    (
        geometry::min(ax, bx),
        geometry::min(ay, by),
        geometry::max(ax, bx),
        geometry::max(ay, by),
    )
}

/// What is selected by a rectangle one of whose corners is `(ax, ay)` and the other `(bx, by)`,
/// whichever way round those are.
pub open spec fn spanned(bounds: Rect, ax: int, ay: int, bx: int, by: int) -> Option<Rect> {
    let (left, top, right, bottom) = normalized(ax, ay, bx, by);
    clipped(bounds, left, top, right, bottom)
}

/// Where the corner of a rectangle of `w` by `h` ends up that was put at `(x, y)` and is slid back
/// onto the desktop.
pub open spec fn slid_to(bounds: Rect, x: int, y: int, w: int, h: int) -> (int, int) {
    (
        geometry::max(bounds.x as int, geometry::min(x, bounds.right_edge() - w)),
        geometry::max(bounds.y as int, geometry::min(y, bounds.bottom_edge() - h)),
    )
}

/// A rectangle of `w` by `h` whose corner was put at `(x, y)`, slid back onto the desktop
/// without changing its size.
///
/// One larger than the desktop is clipped instead, since there is nowhere left to slide it to.
pub open spec fn slid(bounds: Rect, x: int, y: int, w: int, h: int) -> Option<Rect> {
    if w > bounds.w || h > bounds.h {
        clipped(bounds, x, y, x + w, y + h)
    } else {
        let (x, y) = slid_to(bounds, x, y, w, h);
        clipped(bounds, x, y, x + w, y + h)
    }
}

/// What is selected once `handle` of the rectangle `fixed` has been dragged to `at`.
///
/// The corners are **inclusive** here: a handle sits on a pixel, so the pixel it is dragged to
/// and the one opposite it are both selected, whichever way round they end up.
pub open spec fn resized(bounds: Rect, handle: Handle, fixed: Rect, at: Point) -> Option<Rect> {
    let ax = if handle.moves_left() { at.x as int } else { fixed.x as int };
    let ay = if handle.moves_top() { at.y as int } else { fixed.y as int };
    let bx = if handle.moves_right() { at.x as int } else { fixed.right_edge() - 1 };
    let by = if handle.moves_bottom() { at.y as int } else { fixed.bottom_edge() - 1 };
    let (left, top, right, bottom) = normalized(ax, ay, bx, by);
    clipped(bounds, left, top, right + 1, bottom + 1)
}

/// Whether `at` is close enough to a handle of `rect` to grab it.
pub open spec fn grabs(rect: Rect, handle: Handle, at: Point) -> bool {
    &&& -radius(rect) <= at.x - handle.column(rect) <= radius(rect)
    &&& -radius(rect) <= at.y - handle.row(rect) <= radius(rect)
}

/// The first handle that `at` grabs, in hit-test order and starting from the one at `from`.
pub open spec fn first_grabbed(rect: Rect, at: Point, from: int) -> Option<Handle>
    decreases 8 - from,
{
    if from < 0 || from >= 8 {
        None
    } else if grabs(rect, Handle::ALL[from], at) {
        Some(Handle::ALL[from])
    } else {
        first_grabbed(rect, at, from + 1)
    }
}

/// The pixel in the middle of a selection, which moves it whatever handles surround it.
pub open spec fn middle(rect: Rect) -> Point {
    Point { x: (rect.x + rect.w / 2) as i32, y: (rect.y + rect.h / 2) as i32 }
}

/// Everything a [`Selection`] knows.
pub struct SelectionState {
    /// The desktop. Everything is clamped to this.
    pub bounds: Rect,
    /// What is selected, if anything.
    pub rect: Option<Rect>,
    /// The drag in progress, if any.
    pub drag: Option<Drag>,
}

impl SelectionState {
    /// What holds of every selection: what is selected is on the desktop and is not empty, and a
    /// drag was started on such a rectangle.
    pub open spec fn wf(self) -> bool {
        &&& self.bounds.fits()
        &&& self.rect matches Some(rect) ==> !rect.empty() && rect.within(self.bounds)
        &&& self.drag matches Some(Drag::Resize { handle, fixed }) ==> !fixed.empty()
            && fixed.within(self.bounds)
        &&& self.drag matches Some(Drag::Move { grab, size }) ==> {
            &&& 0 <= grab.x < size.0 <= self.bounds.w
            &&& 0 <= grab.y < size.1 <= self.bounds.h
        }
    }

    /// What is under `at`. The middle of a selection moves it, so that one no larger than its own
    /// handles can still be moved.
    pub open spec fn grip_at(self, at: Point) -> Grip {
        match self.rect {
            None => Grip::Outside,
            Some(rect) => if at == middle(rect) {
                Grip::Inside
            } else {
                match first_grabbed(rect, at, 0) {
                    Some(handle) => Grip::Handle(handle),
                    None => if rect.covers(at.x as int, at.y as int) {
                        Grip::Inside
                    } else {
                        Grip::Outside
                    },
                }
            },
        }
    }

    /// The drag that a press at `at` starts.
    pub open spec fn drag_from(self, at: Point) -> Drag {
        match (self.grip_at(at), self.rect) {
            (Grip::Handle(handle), Some(rect)) => Drag::Resize { handle, fixed: rect },
            (Grip::Inside, Some(rect)) => Drag::Move {
                grab: Point { x: (at.x - rect.x) as i32, y: (at.y - rect.y) as i32 },
                size: (rect.w, rect.h),
            },
            _ => Drag::Band { anchor: at, live: false },
        }
    }

    /// The state after a press at `at`. What is selected stays as it is.
    pub open spec fn pressed(self, at: Point) -> SelectionState {
        SelectionState { drag: Some(self.drag_from(at)), ..self }
    }

    /// The state after the pointer has moved to `at`.
    pub open spec fn moved(self, at: Point) -> SelectionState {
        match self.drag {
            None => self,
            Some(Drag::Band { anchor, live }) => if live || far_enough(anchor, at) {
                SelectionState {
                    rect: spanned(
                        self.bounds,
                        anchor.x as int,
                        anchor.y as int,
                        at.x as int,
                        at.y as int,
                    ),
                    drag: Some(Drag::Band { anchor, live: true }),
                    ..self
                }
            } else {
                self
            },
            Some(Drag::Resize { handle, fixed }) => SelectionState {
                rect: resized(self.bounds, handle, fixed, at),
                ..self
            },
            Some(Drag::Move { grab, size }) => SelectionState {
                rect: slid(
                    self.bounds,
                    at.x - grab.x,
                    at.y - grab.y,
                    size.0 as int,
                    size.1 as int,
                ),
                ..self
            },
        }
    }

    /// The state after the button has come up.
    pub open spec fn released(self) -> SelectionState {
        SelectionState { drag: None, ..self }
    }

    /// The state after an arrow key. Resizing moves the bottom-right corner; otherwise the whole
    /// rectangle moves, and keeps its size.
    pub open spec fn nudged(self, dx: int, dy: int, resize: bool) -> SelectionState {
        match self.rect {
            None => self,
            Some(rect) => SelectionState {
                rect: if resize {
                    spanned(
                        self.bounds,
                        rect.x as int,
                        rect.y as int,
                        rect.right_edge() + dx,
                        rect.bottom_edge() + dy,
                    )
                } else {
                    slid(self.bounds, rect.x + dx, rect.y + dy, rect.w as int, rect.h as int)
                },
                ..self
            },
        }
    }

    /// The state after a rectangle has been selected, as far as it is on the desktop.
    pub open spec fn set_to(self, rect: Rect) -> SelectionState {
        SelectionState {
            rect: clipped(
                self.bounds,
                rect.x as int,
                rect.y as int,
                rect.right_edge(),
                rect.bottom_edge(),
            ),
            ..self
        }
    }

    /// The state after the whole desktop has been selected.
    pub open spec fn all_selected(self) -> SelectionState {
        self.set_to(self.bounds)
    }

    /// The state after the selection has been thrown away.
    pub open spec fn cleared(self) -> SelectionState {
        SelectionState { rect: None, drag: None, ..self }
    }
}

/// Whether the pointer has traveled far enough from a press for a band to exist.
pub open spec fn far_enough(anchor: Point, at: Point) -> bool {
    ||| at.x - anchor.x >= DRAG_THRESHOLD
    ||| anchor.x - at.x >= DRAG_THRESHOLD
    ||| at.y - anchor.y >= DRAG_THRESHOLD
    ||| anchor.y - at.y >= DRAG_THRESHOLD
}

/// The selection, and any drag in progress.
pub struct Selection {
    bounds: Rect,
    /// `None` until the user has pulled something out, which is what the overlay shows its
    /// "click and drag" prompt for.
    rect: Option<Rect>,
    drag: Option<Drag>,
}

impl View for Selection {
    type V = SelectionState;

    closed spec fn view(&self) -> SelectionState {
        SelectionState { bounds: self.bounds, rect: self.rect, drag: self.drag }
    }
}

/// Clip a rectangle, given by its edges, to the desktop.
fn clip(bounds: Rect, left: i64, top: i64, right: i64, bottom: i64) -> (r: Option<Rect>)
    requires
        bounds.fits() || left <= i32::MAX && top <= i32::MAX,
    ensures
        r == clipped(bounds, left as int, top as int, right as int, bottom as int),
{
    let bounds_right: i64 = bounds.x as i64 + bounds.w as i64;
    let bounds_bottom: i64 = bounds.y as i64 + bounds.h as i64;
    let x: i64 = if left >= bounds.x as i64 { left } else { bounds.x as i64 };
    let y: i64 = if top >= bounds.y as i64 { top } else { bounds.y as i64 };
    let x_end: i64 = if right <= bounds_right { right } else { bounds_right };
    let y_end: i64 = if bottom <= bounds_bottom { bottom } else { bounds_bottom };
    if x < x_end && y < y_end {
        Some(Rect::new(x as i32, y as i32, (x_end - x) as i32, (y_end - y) as i32))
    } else {
        None
    }
}

/// Sort two opposite corners, so that no width and no height is negative.
fn normalize(ax: i64, ay: i64, bx: i64, by: i64) -> (r: (i64, i64, i64, i64))
    ensures
        (r.0 as int, r.1 as int, r.2 as int, r.3 as int) == normalized(
            ax as int,
            ay as int,
            bx as int,
            by as int,
        ),
{
    let (left, right) = if ax <= bx { (ax, bx) } else { (bx, ax) };
    let (top, bottom) = if ay <= by { (ay, by) } else { (by, ay) };
    (left, top, right, bottom)
}

/// Select what two opposite corners span, whichever way round they are.
fn span(bounds: Rect, ax: i64, ay: i64, bx: i64, by: i64) -> (r: Option<Rect>)
    requires
        bounds.fits() || (ax <= i32::MAX || bx <= i32::MAX) && (ay <= i32::MAX || by <= i32::MAX),
    ensures
        r == spanned(bounds, ax as int, ay as int, bx as int, by as int),
{
    let (left, top, right, bottom) = normalize(ax, ay, bx, by);
    clip(bounds, left, top, right, bottom)
}

/// Slide a rectangle back inside the desktop **without changing its size**.
///
/// Clipping a moved selection against the edge would shrink it, and once shrunk there is no way
/// to get the size back except by starting over. One larger than the desktop is clipped, since
/// there is nowhere left to slide it to.
fn slide_into(bounds: Rect, x: i64, y: i64, w: i32, h: i32) -> (r: Option<Rect>)
    requires
        bounds.fits(),
        -0x2_0000_0000 <= x <= 0x2_0000_0000,
        -0x2_0000_0000 <= y <= 0x2_0000_0000,
    ensures
        r == slid(bounds, x as int, y as int, w as int, h as int),
{
    if w > bounds.w || h > bounds.h {
        return clip(bounds, x, y, x + w as i64, y + h as i64);
    }
    let x_last: i64 = bounds.x as i64 + bounds.w as i64 - w as i64;
    let y_last: i64 = bounds.y as i64 + bounds.h as i64 - h as i64;
    let mut x: i64 = if x <= x_last { x } else { x_last };
    if x < bounds.x as i64 {
        x = bounds.x as i64;
    }
    let mut y: i64 = if y <= y_last { y } else { y_last };
    if y < bounds.y as i64 {
        y = bounds.y as i64;
    }
    clip(bounds, x, y, x + w as i64, y + h as i64)
}

/// Whether two selections are the same one.
fn same(a: Option<Rect>, b: Option<Rect>) -> (r: bool)
    ensures
        r == (a == b),
{
    match (a, b) {
        (None, None) => true,
        (Some(a), Some(b)) => a == b,
        _ => false,
    }
}

/// Whether the pointer has traveled far enough from a press for a band to exist.
fn traveled(anchor: Point, at: Point) -> (r: bool)
    ensures
        r == far_enough(anchor, at),
{
    let dx: i64 = at.x as i64 - anchor.x as i64;
    let dy: i64 = at.y as i64 - anchor.y as i64;
    let threshold: i64 = DRAG_THRESHOLD as i64;
    dx >= threshold || -dx >= threshold || dy >= threshold || -dy >= threshold
}

impl Selection {
    /// An empty selection over `bounds`.
    pub fn new(bounds: Rect) -> (r: Selection)
        ensures
            r@ == (SelectionState { bounds, rect: None, drag: None }),
    {
        Selection { bounds, rect: None, drag: None }
    }

    /// A selection that starts out set -- what `--all` and `--select` produce.
    ///
    /// Clamped, because `--select` comes from the compositor describing a window that may hang
    /// off the edge of its monitor, and a rectangle outside the desktop would crop to black.
    pub fn preset(bounds: Rect, rect: Rect) -> (r: Selection)
        ensures
            r@ == (SelectionState {
                bounds,
                rect: spanned(
                    bounds,
                    rect.x as int,
                    rect.y as int,
                    rect.right_edge(),
                    rect.bottom_edge(),
                ),
                drag: None,
            }),
    {
        let rect = span(
            bounds,
            rect.x as i64,
            rect.y as i64,
            rect.x as i64 + rect.w as i64,
            rect.y as i64 + rect.h as i64,
        );
        Selection { bounds, rect, drag: None }
    }

    pub fn bounds(&self) -> (r: Rect)
        ensures
            r == self@.bounds,
    {
        self.bounds
    }

    /// What is selected, if anything.
    pub fn rect(&self) -> (r: Option<Rect>)
        ensures
            r == self@.rect,
    {
        self.rect
    }

    /// Whether a drag is in progress, so the overlay can hide the button bar while one is.
    pub fn dragging(&self) -> (r: bool)
        ensures
            r == (self@.drag is Some),
    {
        self.drag.is_some()
    }

    /// What is under `at`, which decides the cursor and what a press there would do.
    pub fn grip_at(&self, at: Point) -> (r: Grip)
        requires
            self@.wf(),
        ensures
            r == self@.grip_at(at),
    {
        let Some(rect) = self.rect else {
            return Grip::Outside;
        };
        if at.x == rect.x + rect.w / 2 && at.y == rect.y + rect.h / 2 {
            return Grip::Inside;
        }
        let grab: i64 = grab_radius(rect) as i64;
        let mut i: usize = 0;
        while i < 8
            invariant
                i <= 8,
                self@.wf(),
                self@.rect == Some(rect),
                grab == radius(rect),
                at != middle(rect),
                first_grabbed(rect, at, 0) == first_grabbed(rect, at, i as int),
            decreases 8 - i,
        {
            let handle = Handle::ALL[i];
            let centre = handle.centre(rect);
            let dx: i64 = at.x as i64 - centre.x as i64;
            let dy: i64 = at.y as i64 - centre.y as i64;
            if -grab <= dx && dx <= grab && -grab <= dy && dy <= grab {
                return Grip::Handle(handle);
            }
            i += 1;
        }
        if rect.contains(at.x, at.y) {
            return Grip::Inside;
        }
        Grip::Outside
    }

    /// Begin a drag. Returns whether what is selected changed, which a press never does.
    pub fn press(&mut self, at: Point) -> (changed: bool)
        requires
            old(self)@.wf(),
        ensures
            final(self)@ == old(self)@.pressed(at),
            final(self)@.wf(),
            !changed,
    {
        let drag = match (self.grip_at(at), self.rect) {
            (Grip::Handle(handle), Some(rect)) => Drag::Resize { handle, fixed: rect },
            (Grip::Inside, Some(rect)) => Drag::Move {
                grab: Point::new(at.x - rect.x, at.y - rect.y),
                size: (rect.w, rect.h),
            },
            // A new band. The old selection stays on screen until the threshold is passed, so a
            // stray click on bare desktop does not blank it.
            _ => Drag::Band { anchor: at, live: false },
        };
        self.drag = Some(drag);
        false
    }

    /// The pointer moved. Returns whether the selection changed.
    pub fn motion(&mut self, at: Point) -> (changed: bool)
        requires
            old(self)@.wf(),
        ensures
            final(self)@ == old(self)@.moved(at),
            final(self)@.wf(),
            changed == (final(self)@.rect != old(self)@.rect),
    {
        let Some(drag) = self.drag else {
            return false;
        };
        match drag {
            Drag::Band { anchor, live } => {
                if !live && !traveled(anchor, at) {
                    return false;
                }
                self.drag = Some(Drag::Band { anchor, live: true });
                // Normalized as it goes: dragging up and to the left is as valid as down and to
                // the right, and the rest of the program never sees a negative width.
                let next = span(
                    self.bounds,
                    anchor.x as i64,
                    anchor.y as i64,
                    at.x as i64,
                    at.y as i64,
                );
                self.store(next)
            },
            Drag::Resize { handle, fixed } => {
                let (moves_left, moves_right, moves_top, moves_bottom) = handle.edges();
                let mut x0: i64 = fixed.left() as i64;
                let mut y0: i64 = fixed.top() as i64;
                let mut x1: i64 = fixed.right() as i64 - 1;
                let mut y1: i64 = fixed.bottom() as i64 - 1;
                if moves_left {
                    x0 = at.x as i64;
                }
                if moves_right {
                    x1 = at.x as i64;
                }
                if moves_top {
                    y0 = at.y as i64;
                }
                if moves_bottom {
                    y1 = at.y as i64;
                }
                // Dragging a handle past the opposite edge flips the rectangle rather than
                // collapsing it. With inclusive corners that is just a sort, and the anchor pixel
                // stays selected either way round.

                let (left, top, right, bottom) = normalize(x0, y0, x1, y1);
                let next = clip(self.bounds, left, top, right + 1, bottom + 1);
                self.store(next)
            },
            Drag::Move { grab, size } => {
                // Slid back inside rather than clipped: a move must not also resize, or a
                // selection dragged against the edge shrinks and cannot be got back.
                let next = slide_into(
                    self.bounds,
                    at.x as i64 - grab.x as i64,
                    at.y as i64 - grab.y as i64,
                    size.0,
                    size.1,
                );
                self.store(next)
            },
        }
    }

    /// The button came up. Returns whether the selection changed, which a release never does.
    ///
    /// A band that never passed the threshold leaves the previous selection alone -- see
    /// [`DRAG_THRESHOLD`].
    pub fn release(&mut self) -> (changed: bool)
        ensures
            final(self)@ == old(self)@.released(),
            old(self)@.wf() ==> final(self)@.wf(),
            !changed,
    {
        self.drag = None;
        false
    }

    /// Move or resize by the keyboard. `resize` grows from the bottom-right rather than moving.
    pub fn nudge(&mut self, dx: i32, dy: i32, resize: bool) -> (changed: bool)
        requires
            old(self)@.wf(),
        ensures
            final(self)@ == old(self)@.nudged(dx as int, dy as int, resize),
            final(self)@.wf(),
            changed == (final(self)@.rect != old(self)@.rect),
    {
        let Some(rect) = self.rect else {
            return false;
        };
        let next = if resize {
            span(
                self.bounds,
                rect.x as i64,
                rect.y as i64,
                rect.x as i64 + rect.w as i64 + dx as i64,
                rect.y as i64 + rect.h as i64 + dy as i64,
            )
        } else {
            // Slid, not clamped, for the same reason a pointer move is.
            slide_into(
                self.bounds,
                rect.x as i64 + dx as i64,
                rect.y as i64 + dy as i64,
                rect.w,
                rect.h,
            )
        };
        self.store(next)
    }

    /// Select the whole desktop.
    pub fn select_all(&mut self) -> (changed: bool)
        requires
            old(self)@.wf(),
        ensures
            final(self)@ == old(self)@.all_selected(),
            final(self)@.wf(),
            changed == (final(self)@.rect != old(self)@.rect),
    {
        self.set(self.bounds)
    }

    /// Throw the selection away.
    pub fn clear(&mut self) -> (changed: bool)
        ensures
            final(self)@ == old(self)@.cleared(),
            old(self)@.wf() ==> final(self)@.wf(),
            changed == (final(self)@.rect != old(self)@.rect),
    {
        self.drag = None;
        let changed = self.rect.is_some();
        self.rect = None;
        changed
    }

    /// Select the part of a rectangle that is on the desktop, or nothing when that part holds no
    /// pixel. Returns whether the selection changed; a drag in progress goes on.
    pub fn set(&mut self, rect: Rect) -> (changed: bool)
        ensures
            final(self)@ == old(self)@.set_to(rect),
            old(self)@.wf() ==> final(self)@.wf(),
            changed == (final(self)@.rect != old(self)@.rect),
    {
        let next = clip(
            self.bounds,
            rect.x as i64,
            rect.y as i64,
            rect.x as i64 + rect.w as i64,
            rect.y as i64 + rect.h as i64,
        );
        self.store(next)
    }

    /// Store what is selected now, reporting whether it moved.
    fn store(&mut self, next: Option<Rect>) -> (changed: bool)
        ensures
            final(self)@ == (SelectionState { rect: next, ..old(self)@ }),
            changed == (next != old(self)@.rect),
    {
        if same(next, self.rect) {
            return false;
        }
        self.rect = next;
        true
    }
}

/// An empty selection, and one that starts out set, are sound wherever the desktop itself is.
pub proof fn a_selection_starts_on_the_desktop(bounds: Rect, rect: Rect)
    requires
        bounds.fits(),
    ensures
        (SelectionState { bounds, rect: None, drag: None }).wf(),
        (SelectionState {
            bounds,
            rect: spanned(
                bounds,
                rect.x as int,
                rect.y as int,
                rect.right_edge(),
                rect.bottom_edge(),
            ),
            drag: None,
        }).wf(),
{
}

/// Whatever is done to a selection, what is selected stays on the desktop and is never empty.
pub proof fn a_selection_stays_on_the_desktop(
    s: SelectionState,
    at: Point,
    dx: i32,
    dy: i32,
    resize: bool,
)
    requires
        s.wf(),
    ensures
        s.pressed(at).wf(),
        s.moved(at).wf(),
        s.released().wf(),
        s.nudged(dx as int, dy as int, resize).wf(),
        s.all_selected().wf(),
        s.cleared().wf(),
{
}

/// No operation moves the desktop itself.
pub proof fn the_desktop_never_changes(
    s: SelectionState,
    at: Point,
    dx: i32,
    dy: i32,
    resize: bool,
)
    ensures
        s.pressed(at).bounds == s.bounds,
        s.moved(at).bounds == s.bounds,
        s.released().bounds == s.bounds,
        s.nudged(dx as int, dy as int, resize).bounds == s.bounds,
        s.all_selected().bounds == s.bounds,
        s.cleared().bounds == s.bounds,
{
}

/// A preset covers the pixels of its rectangle that are on the desktop, and no others; one that
/// is off the desktop altogether selects nothing.
pub proof fn a_preset_is_clamped_to_the_desktop(bounds: Rect, rect: Rect, px: int, py: int)
    requires
        !rect.empty(),
    ensures
        ({
            let selected = spanned(
                bounds,
                rect.x as int,
                rect.y as int,
                rect.right_edge(),
                rect.bottom_edge(),
            );
            &&& (selected matches Some(r) && r.covers(px, py)) <==> rect.covers(px, py)
                && bounds.covers(px, py)
            &&& selected is None <==> rect.intersection(bounds).empty()
            &&& selected is Some ==> selected == Some(rect.intersection(bounds))
        }),
{
}

/// Selecting a rectangle selects what it shares with the desktop, and nothing where they share no
/// pixel; the desktop and any drag in progress stay as they were.
pub proof fn a_rectangle_is_clamped_as_it_is_selected(s: SelectionState, rect: Rect)
    requires
        rect.w >= 0,
        rect.h >= 0,
    ensures
        s.set_to(rect).rect == (if rect.intersection(s.bounds).empty() {
            None
        } else {
            Some(rect.intersection(s.bounds))
        }),
        s.set_to(rect).bounds == s.bounds,
        s.set_to(rect).drag == s.drag,
{
}

/// Normalizing a rectangle keeps its two corners and makes neither its width nor its height
/// negative; one that has no negative side is left as it is, and so is one that has been
/// normalized.
pub proof fn normalizing_keeps_the_corners(rect: Rect)
    ensures
        ({
            let (x, y) = (rect.x as int, rect.y as int);
            let (left, top, right, bottom) = normalized(
                x,
                y,
                rect.right_edge(),
                rect.bottom_edge(),
            );
            &&& left <= right && top <= bottom
            &&& (left == x && right == rect.right_edge()) || (left == rect.right_edge() && right
                == x)
            &&& (top == y && bottom == rect.bottom_edge()) || (top == rect.bottom_edge() && bottom
                == y)
            &&& rect.w >= 0 && rect.h >= 0 ==> (left, top, right, bottom) == (
                x,
                y,
                rect.right_edge(),
                rect.bottom_edge(),
            )
            &&& normalized(left, top, right, bottom) == (left, top, right, bottom)
        }),
{
}

/// How far apart two coordinates are.
pub open spec fn distance(a: int, b: int) -> int {
    if a >= b { a - b } else { b - a }
}

/// A rectangle that fits on the desktop slides no further than it has to: it ends up on the
/// desktop with its size, no place on the desktop is nearer on either axis, and one that is
/// already there stays. One that does not fit is clipped.
pub proof fn a_slide_is_as_short_as_can_be(
    bounds: Rect,
    x: int,
    y: int,
    w: int,
    h: int,
    other_x: int,
    other_y: int,
)
    requires
        0 <= w && 0 <= h,
        0 <= bounds.w && 0 <= bounds.h,
    ensures
        w > bounds.w || h > bounds.h ==> slid(bounds, x, y, w, h) == clipped(
            bounds,
            x,
            y,
            x + w,
            y + h,
        ),
        w <= bounds.w && h <= bounds.h ==> {
            let (to_x, to_y) = slid_to(bounds, x, y, w, h);
            &&& slid(bounds, x, y, w, h) == (if w > 0 && h > 0 {
                Some(Rect { x: to_x as i32, y: to_y as i32, w: w as i32, h: h as i32 })
            } else {
                None
            })
            &&& bounds.x <= to_x && to_x + w <= bounds.right_edge()
            &&& bounds.y <= to_y && to_y + h <= bounds.bottom_edge()
            &&& bounds.x <= other_x && other_x + w <= bounds.right_edge() ==> distance(to_x, x)
                <= distance(other_x, x)
            &&& bounds.y <= other_y && other_y + h <= bounds.bottom_edge() ==> distance(to_y, y)
                <= distance(other_y, y)
            &&& bounds.x <= x && x + w <= bounds.right_edge() ==> to_x == x
            &&& bounds.y <= y && y + h <= bounds.bottom_edge() ==> to_y == y
        },
{
}

/// A band pulled out far enough selects the pixels between its two corners that are on the
/// desktop, and no others.
pub proof fn a_band_selects_what_it_covers(
    s: SelectionState,
    from: Point,
    to: Point,
    px: int,
    py: int,
)
    requires
        s.grip_at(from) is Outside,
        far_enough(from, to),
    ensures
        ({
            let selected = s.pressed(from).moved(to).released().rect;
            (selected matches Some(r) && r.covers(px, py)) <==> {
                &&& s.bounds.covers(px, py)
                &&& geometry::min(from.x as int, to.x as int) <= px < geometry::max(
                    from.x as int,
                    to.x as int,
                )
                &&& geometry::min(from.y as int, to.y as int) <= py < geometry::max(
                    from.y as int,
                    to.y as int,
                )
            }
        }),
{
}

/// A band dragged backwards is the same rectangle.
pub proof fn a_band_is_the_same_either_way_round(bounds: Rect, a: Point, b: Point)
    ensures
        ({
            let s = SelectionState { bounds, rect: None, drag: None };
            s.pressed(a).moved(b).released().rect == s.pressed(b).moved(a).released().rect
        }),
{
}

/// A click on bare desktop that moves by less than the threshold leaves the selection alone,
/// however often the pointer twitches before the button comes up.
pub proof fn a_click_that_barely_moves_leaves_the_selection_alone(
    s: SelectionState,
    from: Point,
    to: Point,
)
    requires
        s.grip_at(from) is Outside,
        !far_enough(from, to),
    ensures
        s.pressed(from).moved(to) == s.pressed(from),
        s.pressed(from).moved(to).released().rect == s.rect,
{
}

/// Dragging the inside of a selection moves it as far as the pointer went, as long as that keeps
/// it on the desktop, and never changes its size.
pub proof fn a_move_keeps_the_size(s: SelectionState, from: Point, to: Point)
    requires
        s.wf(),
        s.grip_at(from) is Inside,
    ensures
        s.rect matches Some(before) && s.pressed(from).moved(to).rect matches Some(after) && {
            &&& after.w == before.w && after.h == before.h
            &&& s.bounds.x <= before.x + (to.x - from.x) && before.right_edge() + (to.x - from.x)
                <= s.bounds.right_edge() ==> after.x == before.x + (to.x - from.x)
            &&& s.bounds.y <= before.y + (to.y - from.y) && before.bottom_edge() + (to.y - from.y)
                <= s.bounds.bottom_edge() ==> after.y == before.y + (to.y - from.y)
        },
{
}

/// Dragging a handle to a pixel of the desktop selects both that pixel and the one opposite the
/// handle, and everything between them: a handle dragged past the far edge flips the selection
/// and keeps the anchor pixel.
pub proof fn a_resize_keeps_the_opposite_corner(s: SelectionState, from: Point, to: Point)
    requires
        s.wf(),
        s.bounds.covers(to.x as int, to.y as int),
        s.grip_at(from) is Handle,
    ensures
        s.grip_at(from) matches Grip::Handle(handle) && s.rect matches Some(before) && s.pressed(
            from,
        ).moved(to).rect matches Some(after) && {
            &&& handle.moves_left() ==> after.x == geometry::min(
                to.x as int,
                before.right_edge() - 1,
            ) && after.right_edge() - 1 == geometry::max(to.x as int, before.right_edge() - 1)
            &&& handle.moves_right() ==> after.x == geometry::min(to.x as int, before.x as int)
                && after.right_edge() - 1 == geometry::max(to.x as int, before.x as int)
            &&& handle.moves_top() ==> after.y == geometry::min(
                to.y as int,
                before.bottom_edge() - 1,
            ) && after.bottom_edge() - 1 == geometry::max(to.y as int, before.bottom_edge() - 1)
            &&& handle.moves_bottom() ==> after.y == geometry::min(to.y as int, before.y as int)
                && after.bottom_edge() - 1 == geometry::max(to.y as int, before.y as int)
        },
{
}

/// An edge handle moves only its own edge: the other axis stays exactly as it was, wherever the
/// pointer goes along it.
pub proof fn an_edge_handle_moves_only_its_own_edge(s: SelectionState, from: Point, to: Point)
    requires
        s.wf(),
        s.grip_at(from) matches Grip::Handle(handle) && !handle.is_corner(),
    ensures
        s.grip_at(from) matches Grip::Handle(handle) && s.rect matches Some(before) && (s.pressed(
            from,
        ).moved(to).rect matches Some(after) ==> {
            &&& handle is Left || handle is Right ==> after.y == before.y && after.h == before.h
            &&& handle is Top || handle is Bottom ==> after.x == before.x && after.w == before.w
        }),
{
}

/// An arrow key moves a selection by exactly that far while there is room, and never changes its
/// size.
pub proof fn a_nudge_keeps_the_size(s: SelectionState, dx: i32, dy: i32)
    requires
        s.wf(),
        s.rect is Some,
    ensures
        s.rect matches Some(before) && s.nudged(dx as int, dy as int, false).rect matches Some(
            after,
        ) && {
            &&& after.w == before.w && after.h == before.h
            &&& s.bounds.x <= before.x + dx && before.right_edge() + dx <= s.bounds.right_edge()
                ==> after.x == before.x + dx
            &&& s.bounds.y <= before.y + dy && before.bottom_edge() + dy
                <= s.bounds.bottom_edge() ==> after.y == before.y + dy
        },
{
}

/// A nudged resize grows or shrinks from the bottom-right, by exactly that far while the result
/// stays on the desktop.
pub proof fn a_nudged_resize_grows_from_the_bottom_right(s: SelectionState, dx: i32, dy: i32)
    requires
        s.wf(),
        s.rect matches Some(before) && {
            &&& 0 < before.w + dx && before.right_edge() + dx <= s.bounds.right_edge()
            &&& 0 < before.h + dy && before.bottom_edge() + dy <= s.bounds.bottom_edge()
        },
    ensures
        s.rect matches Some(before) && s.nudged(dx as int, dy as int, true).rect == Some(
            Rect {
                x: before.x,
                y: before.y,
                w: (before.w + dx) as i32,
                h: (before.h + dy) as i32,
            },
        ),
{
}

/// Nudging nothing does nothing.
pub proof fn nudging_nothing_does_nothing(s: SelectionState, dx: i32, dy: i32, resize: bool)
    requires
        s.rect is None,
    ensures
        s.nudged(dx as int, dy as int, resize) == s,
{
}

/// Selecting everything takes the whole desktop, and doing it again changes nothing.
pub proof fn select_all_takes_the_whole_desktop(s: SelectionState)
    requires
        !s.bounds.empty(),
    ensures
        s.all_selected().rect == Some(s.bounds),
        s.all_selected().all_selected() == s.all_selected(),
{
}

/// The grip says what a press would do: a handle resizes, the inside moves, anything else starts
/// a band.
pub proof fn the_grip_says_what_a_press_would_do(s: SelectionState, at: Point)
    ensures
        s.grip_at(at) matches Grip::Handle(handle) ==> (s.pressed(at).drag matches Some(
            Drag::Resize { handle: h, fixed },
        ) && h == handle && s.rect == Some(fixed)),
        s.grip_at(at) is Inside ==> (s.pressed(at).drag matches Some(drag) && drag is Move),
        s.grip_at(at) is Outside ==> s.pressed(at).drag == Some(
            Drag::Band { anchor: at, live: false },
        ),
        s.pressed(at).rect == s.rect,
{
}

/// Where a corner and an edge handle overlap, the corner wins, but for the pixel in the middle.
pub proof fn a_corner_beats_an_edge(s: SelectionState, corner: Handle, at: Point)
    requires
        corner.is_corner(),
        s.rect matches Some(rect) && grabs(rect, corner, at) && at != middle(rect),
    ensures
        s.grip_at(at) matches Grip::Handle(handle) && handle.is_corner(),
{
    reveal_with_fuel(first_grabbed, 9);
}

/// However small a selection is, its middle is a pixel of it and moves it.
pub proof fn every_selection_can_be_moved(s: SelectionState)
    requires
        s.wf(),
        s.rect is Some,
    ensures
        s.rect matches Some(rect) && s.grip_at(middle(rect)) is Inside && rect.covers(
            middle(rect).x as int,
            middle(rect).y as int,
        ),
{
}

/// However small a selection is, it can be resized: there is a point, at most one pixel off it,
/// that grabs a handle.
pub proof fn every_selection_can_be_resized(s: SelectionState)
    requires
        s.wf(),
        s.rect is Some,
    ensures
        s.rect matches Some(rect) && {
            let at = Point {
                x: if rect.w == 1 && rect.h == 1 {
                    (rect.x + 1) as i32
                } else {
                    rect.x
                },
                y: rect.y,
            };
            s.grip_at(at) == Grip::Handle(Handle::TopLeft)
        },
{
    reveal_with_fuel(first_grabbed, 2);
}

/// Each corner is grabbed at its own centre on a selection of at least four pixels either way, and
/// each edge on one of at least seven. On a smaller one the corners, which win, cover what is left
/// of them.
pub proof fn every_handle_is_reachable(s: SelectionState, handle: Handle)
    requires
        s.wf(),
        s.rect matches Some(rect) && rect.w >= 4 && rect.h >= 4 && (handle.is_corner() || (rect.w
            >= 7 && rect.h >= 7)),
    ensures
        s.rect matches Some(rect) && s.grip_at(
            Point { x: handle.column(rect) as i32, y: handle.row(rect) as i32 },
        ) == Grip::Handle(handle),
{
    reveal_with_fuel(first_grabbed, 9);
}

/// The state after the pointer has moved to each of `points` in turn.
pub open spec fn followed(s: SelectionState, points: Seq<Point>) -> SelectionState
    decreases points.len(),
{
    if points.len() == 0 {
        s
    } else {
        followed(s, points.drop_last()).moved(points.last())
    }
}

/// A band stays anchored where it was pressed, and once it is there it stays there.
proof fn a_band_stays_anchored(s: SelectionState, from: Point, points: Seq<Point>, k: int)
    requires
        s.grip_at(from) is Outside,
    ensures
        ({
            let after = followed(s.pressed(from), points);
            &&& after.bounds == s.bounds
            &&& after.drag matches Some(Drag::Band { anchor, live }) && anchor == from && (!live
                ==> after.rect == s.rect)
            &&& 0 <= k < points.len() && (points[k].x - from.x >= 3 || from.x - points[k].x >= 3
                || points[k].y - from.y >= 3 || from.y - points[k].y >= 3) ==> (
            after.drag matches Some(Drag::Band { anchor, live }) && live)
            &&& (forall|i: int|
                0 <= i < points.len() ==> -3 < (#[trigger] points[i]).x - from.x < 3 && -3
                    < points[i].y - from.y < 3) ==> (after.drag matches Some(
                Drag::Band { anchor, live },
            ) && !live)
        }),
    decreases points.len(),
{
    if points.len() > 0 {
        let before = points.drop_last();
        a_band_stays_anchored(s, from, before, k);
        assert(points.last() == points[points.len() - 1]);
        assert forall|i: int| 0 <= i < before.len() implies before[i] == #[trigger] points[i] by {}
    }
}

/// Dragging a region out follows the pointer. Once any motion since the press on bare desktop has
/// gone three pixels or more either way, what is selected is, after every motion, the part of the
/// desktop between where the button went down and where the pointer is now, whichever way that is
/// and wherever the pointer has been in between. The far column and row are not part of it.
pub proof fn a_band_follows_the_pointer(
    s: SelectionState,
    from: Point,
    points: Seq<Point>,
    k: int,
    px: int,
    py: int,
)
    requires
        s.grip_at(from) is Outside,
        0 <= k < points.len(),
        points[k].x - from.x >= 3 || from.x - points[k].x >= 3 || points[k].y - from.y >= 3
            || from.y - points[k].y >= 3,
    ensures
        ({
            let selected = followed(s.pressed(from), points).released().rect;
            let to = points[points.len() - 1];
            let bounds = s.bounds;
            &&& (selected matches Some(r) && 0 <= px - r.x < r.w && 0 <= py - r.y < r.h) <==> {
                &&& 0 <= px - bounds.x < bounds.w && 0 <= py - bounds.y < bounds.h
                &&& from.x <= px < to.x || to.x <= px < from.x
                &&& from.y <= py < to.y || to.y <= py < from.y
            }
            &&& selected matches Some(r) ==> r.w > 0 && r.h > 0
        }),
{
    let before = points.drop_last();
    let to = points.last();
    assert(to == points[points.len() - 1]);
    a_band_stays_anchored(s, from, before, k);
    a_band_stays_anchored(s, from, points, k);
    if k < before.len() {
        assert(before[k] == points[k]);
    }
}

/// A press on bare desktop during which no motion goes three pixels either way leaves the selection
/// alone.
pub proof fn a_twitch_selects_nothing(s: SelectionState, from: Point, points: Seq<Point>)
    requires
        s.grip_at(from) is Outside,
        forall|i: int|
            0 <= i < points.len() ==> -3 < (#[trigger] points[i]).x - from.x < 3 && -3
                < points[i].y - from.y < 3,
    ensures
        followed(s.pressed(from), points).released().rect == s.rect,
        followed(s.pressed(from), points).released().drag is None,
{
    a_band_stays_anchored(s, from, points, 0);
}

/// A drag that moves or resizes goes on as it was started.
proof fn a_drag_goes_on(s: SelectionState, from: Point, points: Seq<Point>)
    requires
        s.grip_at(from) is Handle || s.grip_at(from) is Inside,
    ensures
        followed(s.pressed(from), points).bounds == s.bounds,
        followed(s.pressed(from), points).drag == s.pressed(from).drag,
        points.len() > 0 ==> followed(s.pressed(from), points) == s.pressed(from).moved(
            points[points.len() - 1],
        ),
    decreases points.len(),
{
    if points.len() > 0 {
        a_drag_goes_on(s, from, points.drop_last());
    }
}

/// Dragging the inside of a selection moves it with the pointer, wherever that has been: on each
/// axis it goes as far as the pointer went since the press, and where that is past an edge of the
/// desktop, up to that edge. Its size stays.
pub proof fn a_move_goes_with_the_pointer(s: SelectionState, from: Point, points: Seq<Point>)
    requires
        s.wf(),
        s.grip_at(from) is Inside,
        points.len() > 0,
    ensures
        s.rect matches Some(before) && followed(s.pressed(from), points).released().rect matches Some(
            after,
        ) && {
            let to = points[points.len() - 1];
            let (x, y) = (before.x + to.x - from.x, before.y + to.y - from.y);
            let bounds = s.bounds;
            &&& after.w == before.w && after.h == before.h
            &&& x < bounds.x ==> after.x == bounds.x
            &&& x + before.w > bounds.x + bounds.w ==> after.x + after.w == bounds.x + bounds.w
            &&& x >= bounds.x && x + before.w <= bounds.x + bounds.w ==> after.x == x
            &&& y < bounds.y ==> after.y == bounds.y
            &&& y + before.h > bounds.y + bounds.h ==> after.y + after.h == bounds.y + bounds.h
            &&& y >= bounds.y && y + before.h <= bounds.y + bounds.h ==> after.y == y
        },
{
    a_drag_goes_on(s, from, points);
}

/// Dragging a handle takes the edges that it is named by to the pointer, wherever that has been,
/// and leaves the others where they are. Along each axis that it moves, what is selected is
/// everything from the pixel opposite the handle to the pixel under the pointer, both included and
/// whichever comes first, as far as that is on the desktop.
pub proof fn a_resize_goes_with_the_pointer(
    s: SelectionState,
    from: Point,
    points: Seq<Point>,
    px: int,
    py: int,
)
    requires
        s.wf(),
        s.grip_at(from) is Handle,
        points.len() > 0,
    ensures
        s.grip_at(from) matches Grip::Handle(handle) && s.rect matches Some(before) && {
            let selected = followed(s.pressed(from), points).released().rect;
            let to = points[points.len() - 1];
            let bounds = s.bounds;
            let (left, top) = (before.x as int, before.y as int);
            let (right, bottom) = (left + before.w - 1, top + before.h - 1);
            &&& (selected matches Some(r) && 0 <= px - r.x < r.w && 0 <= py - r.y < r.h) <==> {
                &&& 0 <= px - bounds.x < bounds.w && 0 <= py - bounds.y < bounds.h
                &&& match handle {
                    Handle::TopLeft | Handle::Left | Handle::BottomLeft => to.x <= px <= right
                        || right <= px <= to.x,
                    Handle::TopRight | Handle::Right | Handle::BottomRight => left <= px <= to.x
                        || to.x <= px <= left,
                    Handle::Top | Handle::Bottom => left <= px <= right,
                }
                &&& match handle {
                    Handle::TopLeft | Handle::Top | Handle::TopRight => to.y <= py <= bottom
                        || bottom <= py <= to.y,
                    Handle::BottomLeft | Handle::Bottom | Handle::BottomRight => top <= py <= to.y
                        || to.y <= py <= top,
                    Handle::Left | Handle::Right => top <= py <= bottom,
                }
            }
            &&& selected matches Some(r) ==> r.w > 0 && r.h > 0
        },
{
    a_drag_goes_on(s, from, points);
}

/// An arrow key moves a selection by what it says on each axis, and up to the edge of the desktop
/// where that is past it. Its size stays.
pub proof fn a_nudge_goes_as_far_as_there_is_room(s: SelectionState, dx: i32, dy: i32)
    requires
        s.wf(),
        s.rect is Some,
    ensures
        s.rect matches Some(before) && s.nudged(dx as int, dy as int, false).rect matches Some(
            after,
        ) && {
            let (x, y) = (before.x + dx, before.y + dy);
            let bounds = s.bounds;
            &&& after.w == before.w && after.h == before.h
            &&& x < bounds.x ==> after.x == bounds.x
            &&& x + before.w > bounds.x + bounds.w ==> after.x + after.w == bounds.x + bounds.w
            &&& x >= bounds.x && x + before.w <= bounds.x + bounds.w ==> after.x == x
            &&& y < bounds.y ==> after.y == bounds.y
            &&& y + before.h > bounds.y + bounds.h ==> after.y + after.h == bounds.y + bounds.h
            &&& y >= bounds.y && y + before.h <= bounds.y + bounds.h ==> after.y == y
        },
        s.nudged(dx as int, dy as int, false).drag == s.drag,
        s.nudged(dx as int, dy as int, true).drag == s.drag,
{
}

/// An arrow key that resizes moves the right and the bottom edge by what it says and leaves the
/// left and the top one; an edge that passes the opposite one swaps places with it. What is
/// selected is what lies between them on the desktop.
pub proof fn a_nudged_resize_moves_the_far_edges(
    s: SelectionState,
    dx: i32,
    dy: i32,
    px: int,
    py: int,
)
    requires
        s.wf(),
        s.rect is Some,
    ensures
        s.rect matches Some(before) && {
            let selected = s.nudged(dx as int, dy as int, true).rect;
            let bounds = s.bounds;
            let (right, bottom) = (before.x + before.w + dx, before.y + before.h + dy);
            &&& (selected matches Some(r) && 0 <= px - r.x < r.w && 0 <= py - r.y < r.h) <==> {
                &&& 0 <= px - bounds.x < bounds.w && 0 <= py - bounds.y < bounds.h
                &&& before.x <= px < right || right <= px < before.x
                &&& before.y <= py < bottom || bottom <= py < before.y
            }
            &&& selected matches Some(r) ==> r.w > 0 && r.h > 0
        },
{
}

/// A preset, whichever way round it is written, selects the pixels that it spans on the desktop,
/// and no others.
pub proof fn a_preset_selects_what_it_spans(bounds: Rect, rect: Rect, px: int, py: int)
    ensures
        ({
            let selected = spanned(
                bounds,
                rect.x as int,
                rect.y as int,
                rect.x + rect.w,
                rect.y + rect.h,
            );
            &&& (selected matches Some(r) && 0 <= px - r.x < r.w && 0 <= py - r.y < r.h) <==> {
                &&& 0 <= px - bounds.x < bounds.w && 0 <= py - bounds.y < bounds.h
                &&& rect.x <= px < rect.x + rect.w || rect.x + rect.w <= px < rect.x
                &&& rect.y <= py < rect.y + rect.h || rect.y + rect.h <= py < rect.y
            }
            &&& selected matches Some(r) ==> r.w > 0 && r.h > 0
        }),
{
}

/// Whether a point is close to `(cx, cy)` for a selection whose smaller side is `smaller`: within a
/// sixth of that side, but never more than eleven pixels and always within two, both ways.
pub open spec fn close(at: Point, cx: int, cy: int, smaller: int) -> bool {
    let (dx, dy) = (at.x - cx, at.y - cy);
    &&& -2 <= dx <= 2 || (-11 <= dx <= 11 && -smaller <= 6 * dx <= smaller)
    &&& -2 <= dy <= 2 || (-11 <= dy <= 11 && -smaller <= 6 * dy <= smaller)
}

/// A point grabs a handle if and only if it is close to where the handle is.
proof fn grabbing_is_being_close(rect: Rect, handle: Handle, at: Point)
    requires
        rect.w > 0,
        rect.h > 0,
    ensures
        grabs(rect, handle, at) == close(
            at,
            handle.column(rect),
            handle.row(rect),
            if rect.w <= rect.h {
                rect.w as int
            } else {
                rect.h as int
            },
        ),
{
}

/// The first handle that a point grabs is the first in hit-test order.
proof fn the_first_grabbed_comes_first(rect: Rect, at: Point)
    ensures
        first_grabbed(rect, at, 0) == (if grabs(rect, Handle::TopLeft, at) {
            Some(Handle::TopLeft)
        } else if grabs(rect, Handle::TopRight, at) {
            Some(Handle::TopRight)
        } else if grabs(rect, Handle::BottomLeft, at) {
            Some(Handle::BottomLeft)
        } else if grabs(rect, Handle::BottomRight, at) {
            Some(Handle::BottomRight)
        } else if grabs(rect, Handle::Top, at) {
            Some(Handle::Top)
        } else if grabs(rect, Handle::Bottom, at) {
            Some(Handle::Bottom)
        } else if grabs(rect, Handle::Left, at) {
            Some(Handle::Left)
        } else if grabs(rect, Handle::Right, at) {
            Some(Handle::Right)
        } else {
            None
        }),
{
    reveal_with_fuel(first_grabbed, 9);
}

/// What a point is over. The pixel in the middle of a selection moves it. Any other point resizes
/// it if it is close to a handle: corners come before edges, the top before the bottom and the left
/// before the right. A point that is close to no handle moves the selection where it is one of its
/// pixels, and is bare desktop everywhere else; so is every point while nothing is selected.
#[verifier::spinoff_prover]
pub proof fn what_a_point_is_over(s: SelectionState, at: Point)
    requires
        s.rect matches Some(rect) ==> rect.w > 0 && rect.h > 0 && rect.x + rect.w <= 0x7fff_ffff
            && rect.y + rect.h <= 0x7fff_ffff,
    ensures
        s.rect is None ==> s.grip_at(at) is Outside,
        s.rect matches Some(rect) ==> {
            let smaller = if rect.w <= rect.h {
                rect.w as int
            } else {
                rect.h as int
            };
            let (left, top) = (rect.x as int, rect.y as int);
            let (right, bottom) = (left + rect.w - 1, top + rect.h - 1);
            let (mid_x, mid_y) = (left + rect.w as int / 2, top + rect.h as int / 2);
            let top_left = close(at, left, top, smaller);
            let top_right = close(at, right, top, smaller);
            let bottom_left = close(at, left, bottom, smaller);
            let bottom_right = close(at, right, bottom, smaller);
            let corner = top_left || top_right || bottom_left || bottom_right;
            let on_top = close(at, mid_x, top, smaller);
            let on_bottom = close(at, mid_x, bottom, smaller);
            let on_left = close(at, left, mid_y, smaller);
            let on_right = close(at, right, mid_y, smaller);
            let edge = on_top || on_bottom || on_left || on_right;
            let grip = s.grip_at(at);
            if at.x == mid_x && at.y == mid_y {
                grip is Inside
            } else {
                &&& top_left ==> grip == Grip::Handle(Handle::TopLeft)
                &&& !top_left && top_right ==> grip == Grip::Handle(Handle::TopRight)
                &&& !top_left && !top_right && bottom_left ==> grip == Grip::Handle(
                    Handle::BottomLeft,
                )
                &&& !top_left && !top_right && !bottom_left && bottom_right ==> grip
                    == Grip::Handle(Handle::BottomRight)
                &&& !corner && on_top ==> grip == Grip::Handle(Handle::Top)
                &&& !corner && !on_top && on_bottom ==> grip == Grip::Handle(Handle::Bottom)
                &&& !corner && !on_top && !on_bottom && on_left ==> grip == Grip::Handle(
                    Handle::Left,
                )
                &&& !corner && !on_top && !on_bottom && !on_left && on_right ==> grip
                    == Grip::Handle(Handle::Right)
                &&& !corner && !edge ==> (grip is Inside <==> 0 <= at.x - left < rect.w && 0
                    <= at.y - top < rect.h)
                &&& !corner && !edge && !(grip is Inside) ==> grip is Outside
            }
        },
{
    if let Some(rect) = s.rect {
        the_first_grabbed_comes_first(rect, at);
        grabbing_is_being_close(rect, Handle::TopLeft, at);
        grabbing_is_being_close(rect, Handle::TopRight, at);
        grabbing_is_being_close(rect, Handle::BottomLeft, at);
        grabbing_is_being_close(rect, Handle::BottomRight, at);
        grabbing_is_being_close(rect, Handle::Top, at);
        grabbing_is_being_close(rect, Handle::Bottom, at);
        grabbing_is_being_close(rect, Handle::Left, at);
        grabbing_is_being_close(rect, Handle::Right, at);
    }
}

/// A selection is moved by every pixel of it that is close to no handle, and a press on bare
/// desktop, close to no handle, starts a new one: what the press starts is what the point is over.
pub proof fn a_press_starts_what_the_point_is_over(s: SelectionState, at: Point)
    ensures
        s.pressed(at).rect == s.rect && s.pressed(at).bounds == s.bounds,
        s.grip_at(at) is Outside ==> s.pressed(at).drag == Some(
            Drag::Band { anchor: at, live: false },
        ),
        s.grip_at(at) matches Grip::Handle(handle) ==> s.rect matches Some(rect) && s.pressed(
            at,
        ).drag == Some(Drag::Resize { handle, fixed: rect }),
        s.released().rect == s.rect && s.released().bounds == s.bounds && s.released().drag is None,
        s.cleared().rect is None && s.cleared().bounds == s.bounds && s.cleared().drag is None,
        s.drag is None ==> s.moved(at) == s,
{
}

/// Each handle is named by the edges that it moves, and sits on them: on the first or the last
/// pixel of the selection along an axis that it moves, and in the middle along one that it does
/// not.
pub proof fn a_handle_sits_on_what_it_moves(handle: Handle, rect: Rect)
    requires
        rect.w > 0,
        rect.h > 0,
    ensures
        handle.moves_left() <==> handle is TopLeft || handle is Left || handle is BottomLeft,
        handle.moves_right() <==> handle is TopRight || handle is Right || handle is BottomRight,
        handle.moves_top() <==> handle is TopLeft || handle is Top || handle is TopRight,
        handle.moves_bottom() <==> handle is BottomLeft || handle is Bottom || handle
            is BottomRight,
        handle.moves_left() ==> handle.column(rect) == rect.x,
        handle.moves_right() ==> handle.column(rect) == rect.x + rect.w - 1,
        handle is Top || handle is Bottom ==> rect.w - 1 <= 2 * (handle.column(rect) - rect.x)
            <= rect.w,
        handle.moves_top() ==> handle.row(rect) == rect.y,
        handle.moves_bottom() ==> handle.row(rect) == rect.y + rect.h - 1,
        handle is Left || handle is Right ==> rect.h - 1 <= 2 * (handle.row(rect) - rect.y)
            <= rect.h,
{
}

/// The grab radius is a sixth of the smaller side, but never more than eleven pixels nor less than
/// two.
pub proof fn the_grab_radius_is_a_sixth(rect: Rect)
    ensures
        2 <= radius(rect) <= 11,
        radius(rect) > 2 ==> 6 * radius(rect) <= rect.w && 6 * radius(rect) <= rect.h,
        radius(rect) < 11 ==> 6 * (radius(rect) + 1) > rect.w || 6 * (radius(rect) + 1) > rect.h,
{
}

/// Half of a number is rounded toward zero.
pub proof fn half_is_rounded_toward_zero(n: int)
    ensures
        n >= 0 ==> 0 <= n - 2 * half(n) <= 1,
        n <= 0 ==> -1 <= n - 2 * half(n) <= 0,
{
}

/// Selecting a rectangle selects its pixels that are on the desktop, and no others.
pub proof fn selecting_a_rectangle_selects_its_pixels(
    s: SelectionState,
    rect: Rect,
    px: int,
    py: int,
)
    ensures
        ({
            let selected = s.set_to(rect).rect;
            let bounds = s.bounds;
            &&& (selected matches Some(r) && 0 <= px - r.x < r.w && 0 <= py - r.y < r.h) <==> {
                &&& 0 <= px - bounds.x < bounds.w && 0 <= py - bounds.y < bounds.h
                &&& 0 <= px - rect.x < rect.w && 0 <= py - rect.y < rect.h
            }
            &&& selected matches Some(r) ==> r.w > 0 && r.h > 0
        }),
        s.all_selected().rect matches Some(r) ==> r == s.bounds,
        s.all_selected().rect is None <==> s.bounds.w <= 0 || s.bounds.h <= 0,
        s.all_selected().drag == s.drag && s.all_selected().bounds == s.bounds,
{
}

/// A selection is sound if and only if its desktop has edges that an `i32` can hold, what is
/// selected has a pixel and lies on the desktop, and so did what a drag that resizes or moves was
/// started on.
pub proof fn what_holds_of_every_selection(s: SelectionState)
    ensures
        s.wf() <==> {
            let bounds = s.bounds;
            let on_desktop = |rect: Rect|
                {
                    &&& rect.w > 0 && rect.h > 0
                    &&& bounds.x <= rect.x && rect.x + rect.w <= bounds.x + bounds.w
                    &&& bounds.y <= rect.y && rect.y + rect.h <= bounds.y + bounds.h
                };
            &&& -0x8000_0000 <= bounds.x + bounds.w <= 0x7fff_ffff
            &&& -0x8000_0000 <= bounds.y + bounds.h <= 0x7fff_ffff
            &&& s.rect matches Some(rect) ==> on_desktop(rect)
            &&& match s.drag {
                Some(Drag::Resize { handle, fixed }) => on_desktop(fixed),
                Some(Drag::Move { grab, size }) => 0 <= grab.x < size.0 <= bounds.w && 0 <= grab.y
                    < size.1 <= bounds.h,
                _ => true,
            }
        },
{
}

} // verus!
