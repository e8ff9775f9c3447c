//! Laying the overlay out: the frozen desktop, the selection over it, and the button bar.
//!
//! The bar has to be *hit-tested* as well as drawn, and computing its rectangles in one place
//! and using them for both is what stops the two drifting -- a button that lights up somewhere
//! other than where it can be pressed is the classic way that goes wrong.
//!
//! Everything here works in **global** desktop coordinates and subtracts the pane's origin at
//! the last moment. That is what lets a selection, and the bar under it, span two monitors: each
//! pane draws the part of the same global picture that falls on its own screen.
//!
//! Measuring text and filling pixels is left to the program around this: it hands the sizes of
//! the texts in as [`Metrics`], and draws the [`PaneArt`] it gets back.

use crate::geometry;
use crate::geometry::Rect;
use crate::select;
use crate::select::{grab_radius, halved, Handle, Selection};
use crate::shot;
use crate::shot::{ByteOrder, Shot};
use crate::text;
use vstd::prelude::*;

verus! {

/// How tall the button bar is.
pub const BAR_H: i32 = 32;

/// Padding inside the bar, and between the things in it.
pub const BAR_PAD: i32 = 6;

/// How far the bar sits from the selection.
pub const BAR_GAP: i32 = 8;

/// A button's height: what the padding leaves of the bar's.
pub const BUTTON_H: i32 = 20;

/// The padding either side of a button's label.
pub const BUTTON_PAD: i32 = 14;

/// The smallest a button gets, so `OK`-length labels are not postage stamps.
pub const BUTTON_MIN_W: i32 = 64;

/// How big a handle is drawn. Smaller than [`select::HANDLE_GRAB`] on purpose: a target the size
/// of its own artwork is a target most people miss.
pub const HANDLE_DRAW: i32 = 4;

/// Padding inside the prompt panel.
pub const PROMPT_PAD: i32 = 18;

/// The widest the readout gets on any screen anyone has; measured rather than guessed, so the
/// bar does not change width as the selection is dragged.
pub const READOUT_WIDEST: &'static str = "8888 \u{d7} 8888";

/// What the overlay asks for before anything has been selected.
pub const PROMPT: &'static str = "Click and drag to select an area.";

/// What the user can press.
#[derive(Debug, Clone, Copy, PartialEq, Eq, Structural)]
pub enum Button {
    Save,
    Copy,
    Cancel,
}

impl Button {
    /// Left to right, in the order the bar shows them.
    ///
    /// Cancel last and furthest from the pointer's likely resting place, which is where every
    /// dialog in the desktop puts the destructive answer.
    pub const ORDER: [Button; 3] = [Button::Save, Button::Copy, Button::Cancel];

    /// What the button says.
    pub open spec fn text(self) -> Seq<char> {
        match self {
            Button::Save => "Save"@,
            Button::Copy => "Copy"@,
            Button::Cancel => "Cancel"@,
        }
    }

    pub fn label(self) -> (r: &'static str)
        ensures
            r@ == self.text(),
    {
        match self {
            Button::Save => "Save",
            Button::Copy => "Copy",
            Button::Cancel => "Cancel",
        }
    }
}

/// Which buttons the bar offers at all.
#[derive(Debug, Clone, Copy, PartialEq, Eq, Structural)]
pub struct Offered {
    pub save: bool,
    /// Left out where the compositor has no `wlr-data-control`, since a button that cannot work
    /// is worse than one that is not there.
    pub copy: bool,
    pub cancel: bool,
}

impl Offered {
    /// Whether `button` is one of them.
    pub open spec fn has(self, button: Button) -> bool {
        match button {
            Button::Save => self.save,
            Button::Copy => self.copy,
            Button::Cancel => self.cancel,
        }
    }

    /// The buttons that are offered, in the order the bar shows them.
    pub open spec fn buttons(self) -> Seq<Button> {
        Button::ORDER@.filter(|button: Button| self.has(button))
    }

    /// Whether `button` is one of them.
    pub fn offers(self, button: Button) -> (r: bool)
        ensures
            r == self.has(button),
    {
        match button {
            Button::Save => self.save,
            Button::Copy => self.copy,
            Button::Cancel => self.cancel,
        }
    }
}

/// The sizes of the texts on the overlay, in pixels, as the font draws them.
#[derive(Debug, Clone, Copy, PartialEq, Eq, Structural)]
pub struct Metrics {
    /// The width of each button's label.
    pub save_w: i32,
    pub copy_w: i32,
    pub cancel_w: i32,
    /// The width of [`READOUT_WIDEST`].
    pub readout_w: i32,
    /// How far the readout's text reaches above its baseline.
    pub readout_ascent: i32,
    /// The width of [`PROMPT`], and the height of its line.
    pub prompt_w: i32,
    pub prompt_h: i32,
}

impl Metrics {
    /// The width of a button's label.
    pub open spec fn label_w(self, button: Button) -> int {
        match button {
            Button::Save => self.save_w as int,
            Button::Copy => self.copy_w as int,
            Button::Cancel => self.cancel_w as int,
        }
    }

    /// The width of a button: its label's and the padding around that, but never a stamp's.
    pub open spec fn button_w(self, button: Button) -> int {
        geometry::max(self.label_w(button) + 2 * BUTTON_PAD, BUTTON_MIN_W as int)
    }

    /// The width that a row of buttons takes, with the padding after each.
    pub open spec fn row_w(self, buttons: Seq<Button>) -> int
        decreases buttons.len(),
    {
        if buttons.len() == 0 {
            0
        } else {
            self.row_w(buttons.drop_last()) + self.button_w(buttons.last()) + BAR_PAD
        }
    }

    /// The width of a bar with these buttons: padding, the readout, padding, the buttons.
    pub open spec fn bar_w(self, buttons: Seq<Button>) -> int {
        2 * BAR_PAD + self.readout_w + self.row_w(buttons)
    }

    /// The width of a button.
    fn width_of(&self, button: Button) -> (r: i64)
        ensures
            r == self.button_w(button),
            BUTTON_MIN_W <= r <= 0x1_0000_0000,
    {
        let label: i64 = match button {
            Button::Save => self.save_w as i64,
            Button::Copy => self.copy_w as i64,
            Button::Cancel => self.cancel_w as i64,
        };
        let padded: i64 = label + 2 * BUTTON_PAD as i64;
        if padded >= BUTTON_MIN_W as i64 {
            padded
        } else {
            BUTTON_MIN_W as i64
        }
    }
}

/// Where the bar and its buttons are, in global coordinates.
pub struct Bar {
    pub rect: Rect,
    pub buttons: Vec<(Button, Rect)>,
    /// Where the size of the selection is written.
    pub readout: Rect,
}

/// Everything a [`Bar`] knows.
#[verifier::ext_equal]
pub struct BarState {
    pub rect: Rect,
    pub buttons: Seq<(Button, Rect)>,
    pub readout: Rect,
}

impl View for Bar {
    type V = BarState;

    open spec fn view(&self) -> BarState {
        BarState { rect: self.rect, buttons: self.buttons@, readout: self.readout }
    }
}

/// The first of `buttons` whose rectangle covers the pixel at `(px, py)`.
pub open spec fn button_under(buttons: Seq<(Button, Rect)>, px: int, py: int) -> Option<Button>
    decreases buttons.len(),
{
    if buttons.len() == 0 {
        None
    } else if buttons[0].1.covers(px, py) {
        Some(buttons[0].0)
    } else {
        button_under(buttons.drop_first(), px, py)
    }
}

impl Bar {
    /// The button under a global point, if any.
    pub fn button_at(&self, x: i32, y: i32) -> (r: Option<Button>)
        ensures
            r == button_under(self.buttons@, x as int, y as int),
    {
        let mut i: usize = 0;
        assert(self.buttons@.skip(0) == self.buttons@);
        while i < self.buttons.len()
            invariant
                i <= self.buttons@.len(),
                button_under(self.buttons@, x as int, y as int) == button_under(
                    self.buttons@.skip(i as int),
                    x as int,
                    y as int,
                ),
            decreases self.buttons@.len() - i,
        {
            let (button, rect) = self.buttons[i];
            assert(self.buttons@.skip(i as int)[0] == self.buttons@[i as int]);
            assert(self.buttons@.skip(i as int).drop_first() == self.buttons@.skip(i + 1));
            if rect.contains(x, y) {
                return Some(button);
            }
            i += 1;
        }
        None
    }

    /// Whether a point is anywhere on the bar.
    ///
    /// Checked before the selection is: the bar floats *over* the frozen desktop, and a press
    /// on the gap between two buttons must not fall through and start a new band underneath it.
    pub fn contains(&self, x: i32, y: i32) -> (r: bool)
        ensures
            r == self.rect.covers(x as int, y as int),
    {
        self.rect.contains(x, y)
    }
}

/// The row the bar starts at: under the selection by preference, above it when there is no room,
/// and inside it when there is no room either way -- a selection covering the whole screen has
/// nowhere else for the bar to be, and a bar off the edge is a bar that cannot be pressed.
pub open spec fn bar_y(selection: Rect, bounds: Rect) -> int {
    let below = selection.bottom_edge() + BAR_GAP;
    let above = selection.y - BAR_GAP - BAR_H;
    if below + BAR_H <= bounds.bottom_edge() {
        below
    } else if above >= bounds.y {
        above
    } else {
        geometry::max(selection.bottom_edge() - BAR_GAP - BAR_H, bounds.y as int)
    }
}

/// The column a bar of width `w` starts at: centred on the selection, then slid back onto the
/// desktop.
pub open spec fn bar_x(selection: Rect, bounds: Rect, w: int) -> int {
    let centred = selection.x + select::half(selection.w - w);
    let last = geometry::max(bounds.right_edge() - w, bounds.x as int);
    geometry::max(bounds.x as int, geometry::min(centred, last))
}

/// Where the bar is.
pub open spec fn bar_rect(selection: Rect, bounds: Rect, w: int) -> Rect {
    Rect {
        x: bar_x(selection, bounds, w) as i32,
        y: bar_y(selection, bounds) as i32,
        w: w as i32,
        h: BAR_H,
    }
}

/// Where the readout is: at the left end of the bar.
pub open spec fn readout_rect(bar: Rect, metrics: Metrics) -> Rect {
    Rect {
        x: (bar.x + BAR_PAD) as i32,
        y: (bar.y + BAR_PAD) as i32,
        w: metrics.readout_w,
        h: BUTTON_H,
    }
}

/// Where each button is: one after the other, to the right of the readout.
pub open spec fn button_rects(bar: Rect, metrics: Metrics, buttons: Seq<Button>) -> Seq<
    (Button, Rect),
> {
    Seq::new(
        buttons.len(),
        |i: int|
            (
                buttons[i],
                Rect {
                    x: (bar.x + 2 * BAR_PAD + metrics.readout_w + metrics.row_w(
                        buttons.take(i),
                    )) as i32,
                    y: (bar.y + BAR_PAD) as i32,
                    w: metrics.button_w(buttons[i]) as i32,
                    h: BUTTON_H,
                },
            ),
    )
}

/// The bar over a selection.
pub open spec fn laid_out(
    selection: Rect,
    bounds: Rect,
    metrics: Metrics,
    buttons: Seq<Button>,
) -> BarState {
    let rect = bar_rect(selection, bounds, metrics.bar_w(buttons));
    BarState {
        rect,
        buttons: button_rects(rect, metrics, buttons),
        readout: readout_rect(rect, metrics),
    }
}

/// Whether a bar with these buttons can be laid out on this desktop: no width is negative, and
/// no edge is past what an `i32` can hold.
pub open spec fn bar_fits(bounds: Rect, metrics: Metrics, buttons: Seq<Button>) -> bool {
    &&& bounds.fits()
    &&& 0 <= metrics.readout_w
    &&& metrics.bar_w(buttons) <= i32::MAX
    &&& bounds.x + metrics.bar_w(buttons) <= i32::MAX
    &&& bounds.y + BAR_PAD <= i32::MAX
}

/// A row is at least as wide as any row that it starts with.
proof fn row_grows(metrics: Metrics, buttons: Seq<Button>, n: int)
    requires
        0 <= n <= buttons.len(),
    ensures
        0 <= metrics.row_w(buttons.take(n)) <= metrics.row_w(buttons),
        n < buttons.len() ==> metrics.row_w(buttons.take(n)) + metrics.button_w(buttons[n])
            + BAR_PAD <= metrics.row_w(buttons),
    decreases buttons.len(),
{
    if buttons.len() > 0 {
        let before = buttons.drop_last();
        if n < buttons.len() {
            assert(before.take(n) == buttons.take(n));
            row_grows(metrics, before, n);
            if n < before.len() {
                assert(before[n] == buttons[n]);
            }
        } else {
            assert(buttons.take(n) == buttons);
            row_grows(metrics, before, n - 1);
        }
    } else {
        assert(buttons.take(n) == buttons);
    }
}

/// The buttons that are offered.
fn offered_buttons(offered: Offered) -> (r: Vec<Button>)
    ensures
        r@ == offered.buttons(),
{
    let mut buttons: Vec<Button> = Vec::new();
    let ghost pred = |button: Button| offered.has(button);
    let mut i: usize = 0;
    assert(Button::ORDER@.take(0) == Seq::<Button>::empty());
    reveal(Seq::filter);
    while i < 3
        invariant
            i <= 3,
            pred == (|button: Button| offered.has(button)),
            buttons@ == Button::ORDER@.take(i as int).filter(pred),
        decreases 3 - i,
    {
        let button = Button::ORDER[i];
        assert(Button::ORDER@.take(i + 1).drop_last() == Button::ORDER@.take(i as int));
        assert(Button::ORDER@.take(i + 1).last() == button);
        reveal(Seq::filter);
        if offered.offers(button) {
            buttons.push(button);
        }
        i += 1;
    }
    assert(Button::ORDER@.take(3) == Button::ORDER@);
    buttons
}

/// Whether [`layout`] can place a bar with these buttons on this desktop.
pub fn can_lay_out(bounds: Rect, metrics: &Metrics, offered: Offered) -> (r: bool)
    ensures
        r == bar_fits(bounds, *metrics, offered.buttons()),
{
    if !bounds.has_edges() || metrics.readout_w < 0 {
        return false;
    }
    let shown = offered_buttons(offered);
    let ghost all = offered.buttons();
    let most: i64 = i32::MAX as i64;
    let mut row_w: i64 = 0;
    let mut i: usize = 0;
    assert(all.take(0) == Seq::<Button>::empty());
    while i < shown.len()
        invariant
            i <= shown@.len(),
            shown@ == all,
            all == offered.buttons(),
            most == i32::MAX,
            row_w == metrics.row_w(all.take(i as int)),
            0 <= row_w <= most,
            0 <= metrics.readout_w,
        decreases shown@.len() - i,
    {
        assert(all.take(i + 1).drop_last() == all.take(i as int));
        assert(all.take(i + 1).last() == all[i as int]);
        row_w = row_w + metrics.width_of(shown[i]) + BAR_PAD as i64;
        proof {
            row_grows(*metrics, all, i + 1);
        }
        if row_w > most {
            return false;
        }
        i += 1;
    }
    assert(all.take(i as int) == all);
    let w: i64 = 2 * BAR_PAD as i64 + metrics.readout_w as i64 + row_w;
    w <= most && bounds.x as i64 + w <= most && bounds.y as i64 + BAR_PAD as i64 <= most
}

/// Work out where the bar goes for this selection.
pub fn layout(selection: Rect, bounds: Rect, metrics: &Metrics, offered: Offered) -> (r: Bar)
    requires
        selection.fits(),
        bar_fits(bounds, *metrics, offered.buttons()),
    ensures
        r@ == laid_out(selection, bounds, *metrics, offered.buttons()),
{
    let shown = offered_buttons(offered);
    let ghost all = offered.buttons();
    let mut row_w: i64 = 0;
    let mut i: usize = 0;
    assert(all.take(0) == Seq::<Button>::empty());
    while i < shown.len()
        invariant
            i <= shown@.len(),
            shown@ == all,
            row_w == metrics.row_w(all.take(i as int)),
            bar_fits(bounds, *metrics, all),
            all == offered.buttons(),
        decreases shown@.len() - i,
    {
        assert(all.take(i + 1).drop_last() == all.take(i as int));
        assert(all.take(i + 1).last() == all[i as int]);
        proof {
            row_grows(*metrics, all, i as int);
        }
        row_w = row_w + metrics.width_of(shown[i]) + BAR_PAD as i64;
        i += 1;
    }
    assert(all.take(i as int) == all);
    proof {
        row_grows(*metrics, all, 0);
    }
    let w: i64 = 2 * BAR_PAD as i64 + metrics.readout_w as i64 + row_w;

    let selection_bottom: i64 = selection.y as i64 + selection.h as i64;
    let bounds_bottom: i64 = bounds.y as i64 + bounds.h as i64;
    let bounds_right: i64 = bounds.x as i64 + bounds.w as i64;
    let below: i64 = selection_bottom + BAR_GAP as i64;
    let above: i64 = selection.y as i64 - BAR_GAP as i64 - BAR_H as i64;
    let y: i64 = if below + BAR_H as i64 <= bounds_bottom {
        below
    } else if above >= bounds.y as i64 {
        above
    } else {
        let inside: i64 = selection_bottom - BAR_GAP as i64 - BAR_H as i64;
        if inside >= bounds.y as i64 {
            inside
        } else {
            bounds.y as i64
        }
    };
    let spare: i64 = selection.w as i64 - w;
    let centred: i64 = selection.x as i64 + halved(spare);
    let last: i64 = if bounds_right - w >= bounds.x as i64 {
        bounds_right - w
    } else {
        bounds.x as i64
    };
    let mut x: i64 = if centred <= last { centred } else { last };
    if x < bounds.x as i64 {
        x = bounds.x as i64;
    }
    let rect = Rect::new(x as i32, y as i32, w as i32, BAR_H);
    assert(rect == bar_rect(selection, bounds, metrics.bar_w(all)));
    let readout = Rect::new(rect.x + BAR_PAD, rect.y + BAR_PAD, metrics.readout_w, BUTTON_H);

    let mut cursor: i64 = x + 2 * BAR_PAD as i64 + metrics.readout_w as i64;
    let mut buttons: Vec<(Button, Rect)> = Vec::new();
    let ghost rects = button_rects(rect, *metrics, all);
    let mut i: usize = 0;
    while i < shown.len()
        invariant
            i <= shown@.len(),
            shown@ == all,
            rect.x == x,
            x + metrics.bar_w(all) <= i32::MAX,
            0 <= metrics.readout_w,
            rect.y + BAR_PAD <= i32::MAX,
            cursor == x + 2 * BAR_PAD + metrics.readout_w + metrics.row_w(all.take(i as int)),
            rects == button_rects(rect, *metrics, all),
            buttons@ == rects.take(i as int),
        decreases shown@.len() - i,
    {
        assert(all.take(i + 1).drop_last() == all.take(i as int));
        assert(all.take(i + 1).last() == all[i as int]);
        proof {
            row_grows(*metrics, all, i as int);
        }
        let button_w: i64 = metrics.width_of(shown[i]);
        let at = Rect::new(cursor as i32, rect.y + BAR_PAD, button_w as i32, BUTTON_H);
        buttons.push((shown[i], at));
        assert(rects[i as int] == (shown@[i as int], at));
        assert(rects.take(i + 1) == rects.take(i as int).push(rects[i as int]));
        cursor = cursor + button_w + BAR_PAD as i64;
        i += 1;
    }
    assert(rects.take(i as int) == rects);
    Bar { rect, buttons, readout }
}

/// Everything one pane needs to draw itself.
pub struct Scene<'a> {
    /// Where this pane's top-left corner is on the desktop.
    pub origin: (i32, i32),
    pub shot: &'a Shot,
    pub selection: &'a Selection,
    pub bar: Option<&'a Bar>,
    /// Which button is under the pointer, and which is held down.
    pub hovered: Option<Button>,
    pub pressed: Option<Button>,
    /// How far the area outside the selection is darkened.
    pub dim: u8,
}

/// One pixel of a pane: what the frozen desktop shows there, and whether it is darkened.
#[derive(Debug, Clone, Copy, PartialEq, Eq, Structural)]
pub struct PanePixel {
    pub color: u32,
    pub dimmed: bool,
}

/// The outline of the selection and its eight handles, in a pane's own coordinates.
///
/// Two outlines rather than one: a single line disappears against whatever it happens to be
/// drawn over, and a screenshot selection is over arbitrary pixels by definition.
pub struct SelectionArt {
    /// The outer outline, one pixel outside the selection.
    pub outer: Rect,
    /// The inner outline, on the selection's own edge.
    pub inner: Rect,
    /// The handles, in hit-test order. Squares, because that is what a Motif sizing grip looks
    /// like.
    pub handles: Vec<Rect>,
}

/// The bar, in a pane's own coordinates.
pub struct BarArt {
    pub panel: Rect,
    /// The size of the selection, and where its text starts.
    pub readout: String,
    pub readout_x: i32,
    pub readout_baseline: i32,
    /// Each button, where it is, and whether it is drawn pressed in.
    pub buttons: Vec<(Button, Rect, bool)>,
}

/// What is drawn over the frozen desktop.
pub enum Figure {
    Selection(SelectionArt),
    /// The panel that [`PROMPT`] is written in. The only thing on screen that says the screen is
    /// not simply frozen.
    Prompt(Rect),
}

/// What one pane shows over the frozen desktop.
pub struct PaneArt {
    pub figure: Figure,
    pub bar: Option<BarArt>,
}

/// A rectangle of the desktop in the coordinates of a pane at `origin`.
pub open spec fn local(rect: Rect, origin: (i32, i32)) -> Rect {
    Rect {
        x: (rect.x - origin.0) as i32,
        y: (rect.y - origin.1) as i32,
        w: rect.w,
        h: rect.h,
    }
}

/// Whether a rectangle has coordinates in a pane at `origin`.
pub open spec fn localizable(rect: Rect, origin: (i32, i32)) -> bool {
    geometry::fits_i32(rect.x - origin.0) && geometry::fits_i32(rect.y - origin.1)
}

/// A rectangle of the desktop in the coordinates of a pane at `origin`.
fn shift(rect: Rect, origin: (i32, i32)) -> (r: Rect)
    requires
        localizable(rect, origin),
    ensures
        r == local(rect, origin),
{
    Rect::new(rect.x - origin.0, rect.y - origin.1, rect.w, rect.h)
}

/// How far a handle of this selection is drawn around its centre.
pub open spec fn drawn_radius(rect: Rect) -> int {
    geometry::min(select::radius(rect), HANDLE_DRAW as int)
}

/// The square that a handle is drawn as.
pub open spec fn handle_square(handle: Handle, rect: Rect, origin: (i32, i32)) -> Rect {
    let r = drawn_radius(rect);
    Rect {
        x: (handle.column(rect) - origin.0 - r) as i32,
        y: (handle.row(rect) - origin.1 - r) as i32,
        w: (2 * r + 1) as i32,
        h: (2 * r + 1) as i32,
    }
}

/// Whether a selection can be outlined in a pane at `origin`: it is not empty, and neither the
/// outer outline nor a handle is past what an `i32` can hold.
pub open spec fn outlinable(rect: Rect, origin: (i32, i32)) -> bool {
    &&& !rect.empty()
    &&& rect.fits()
    &&& rect.w + 2 <= i32::MAX && rect.h + 2 <= i32::MAX
    &&& i32::MIN <= rect.x - origin.0 - drawn_radius(rect)
    &&& i32::MIN <= rect.y - origin.1 - drawn_radius(rect)
    &&& rect.right_edge() - 1 - origin.0 <= i32::MAX
    &&& rect.bottom_edge() - 1 - origin.1 <= i32::MAX
}

/// The selection outline and its eight handles.
fn draw_selection(rect: Rect, origin: (i32, i32)) -> (r: SelectionArt)
    requires
        outlinable(rect, origin),
    ensures
        selection_drawn(r, rect, origin),
{
    let inner = shift(rect, origin);
    let outer = Rect::new(inner.x - 1, inner.y - 1, inner.w + 2, inner.h + 2);
    let grab: i32 = grab_radius(rect);
    let radius: i32 = if grab < HANDLE_DRAW { grab } else { HANDLE_DRAW };
    let mut handles: Vec<Rect> = Vec::new();
    let mut i: usize = 0;
    while i < 8
        invariant
            i <= 8,
            outlinable(rect, origin),
            radius == drawn_radius(rect),
            handles@ == Seq::new(i as nat, |k: int| handle_square(Handle::ALL[k], rect, origin)),
        decreases 8 - i,
    {
        let handle = Handle::ALL[i];
        let centre = handle.centre(rect);
        let x: i64 = centre.x as i64 - origin.0 as i64 - radius as i64;
        let y: i64 = centre.y as i64 - origin.1 as i64 - radius as i64;
        let square = Rect::new(x as i32, y as i32, radius * 2 + 1, radius * 2 + 1);
        assert(square == handle_square(handle, rect, origin));
        handles.push(square);
        i += 1;
    }
    SelectionArt { outer, inner, handles }
}

/// Whether `art` is the outline and the handles of the selection `rect`.
pub open spec fn selection_drawn(art: SelectionArt, rect: Rect, origin: (i32, i32)) -> bool {
    let inner = local(rect, origin);
    &&& art.inner == inner
    &&& art.outer == Rect {
        x: (inner.x - 1) as i32,
        y: (inner.y - 1) as i32,
        w: (inner.w + 2) as i32,
        h: (inner.h + 2) as i32,
    }
    &&& art.handles@ == Seq::new(8, |k: int| handle_square(Handle::ALL[k], rect, origin))
}

/// How the size of a selection is written: with the multiplication sign the rest of the desktop
/// uses rather than an `x`.
pub open spec fn size_text(rect: Rect) -> Seq<char> {
    text::signed_decimal(rect.w as int) + " \u{d7} "@ + text::signed_decimal(rect.h as int)
}

/// The row that the readout's text stands on.
pub open spec fn readout_baseline(readout: Rect, ascent: int) -> int {
    readout.y + select::half(readout.h + ascent) - 2
}

/// Whether a bar can be drawn in a pane at `origin`.
pub open spec fn drawable(bar: Bar, origin: (i32, i32), ascent: int) -> bool {
    &&& localizable(bar.rect, origin)
    &&& localizable(bar.readout, origin)
    &&& geometry::fits_i32(readout_baseline(local(bar.readout, origin), ascent))
    &&& forall|i: int|
        0 <= i < bar.buttons@.len() ==> localizable((#[trigger] bar.buttons@[i]).1, origin)
}

/// How each button is drawn. Pressed only while the pointer is still on the button it went down
/// on, which is what lets a press be taken back by sliding off before releasing.
pub open spec fn buttons_drawn(
    buttons: Seq<(Button, Rect)>,
    origin: (i32, i32),
    hovered: Option<Button>,
    pressed: Option<Button>,
) -> Seq<(Button, Rect, bool)> {
    Seq::new(
        buttons.len(),
        |i: int|
            (
                buttons[i].0,
                local(buttons[i].1, origin),
                pressed == Some(buttons[i].0) && hovered == Some(buttons[i].0),
            ),
    )
}

/// Whether `art` is the bar over the selection `rect`.
pub open spec fn bar_drawn(
    art: BarArt,
    bar: Bar,
    rect: Rect,
    origin: (i32, i32),
    hovered: Option<Button>,
    pressed: Option<Button>,
    ascent: int,
) -> bool {
    &&& art.panel == local(bar.rect, origin)
    &&& art.readout@ == size_text(rect)
    &&& art.readout_x == local(bar.readout, origin).x
    &&& art.readout_baseline == readout_baseline(local(bar.readout, origin), ascent)
    &&& art.buttons@ == buttons_drawn(bar.buttons@, origin, hovered, pressed)
}

/// Whether an optional button is this one.
pub(crate) fn is_button(option: Option<Button>, button: Button) -> (r: bool)
    ensures
        r == (option == Some(button)),
{
    match option {
        Some(b) => b == button,
        None => false,
    }
}

/// The bar: a panel, the size readout, and the buttons.
fn draw_bar(
    bar: &Bar,
    selection: Rect,
    origin: (i32, i32),
    hovered: Option<Button>,
    pressed: Option<Button>,
    ascent: i32,
) -> (r: BarArt)
    requires
        drawable(*bar, origin, ascent as int),
    ensures
        bar_drawn(r, *bar, selection, origin, hovered, pressed, ascent as int),
{
    let panel = shift(bar.rect, origin);
    let readout = shift(bar.readout, origin);
    let w = text::write_signed(selection.w);
    let h = text::write_signed(selection.h);
    let mut size = text::concat(w.as_str(), " \u{d7} ");
    size.append(h.as_str());
    let tall: i64 = readout.h as i64 + ascent as i64;
    let baseline: i64 = readout.y as i64 + halved(tall) - 2;

    let ghost all = buttons_drawn(bar.buttons@, origin, hovered, pressed);
    let mut buttons: Vec<(Button, Rect, bool)> = Vec::new();
    let mut i: usize = 0;
    while i < bar.buttons.len()
        invariant
            i <= bar.buttons@.len(),
            drawable(*bar, origin, ascent as int),
            all == buttons_drawn(bar.buttons@, origin, hovered, pressed),
            buttons@ == all.take(i as int),
        decreases bar.buttons@.len() - i,
    {
        let (button, rect) = bar.buttons[i];
        assert(localizable(bar.buttons@[i as int].1, origin));
        let held = is_button(pressed, button) && is_button(hovered, button);
        buttons.push((button, shift(rect, origin), held));
        assert(all.take(i + 1) == all.take(i as int).push(all[i as int]));
        i += 1;
    }
    assert(all.take(i as int) == all);
    BarArt {
        panel,
        readout: size,
        readout_x: readout.x,
        readout_baseline: baseline as i32,
        buttons,
    }
}

/// The panel shown before anything has been selected, in a pane of `width` by `height`.
pub open spec fn prompt_panel(width: int, height: int, metrics: Metrics) -> (int, int, int, int) {
    (
        select::half(width - metrics.prompt_w) - PROMPT_PAD,
        select::half(height - metrics.prompt_h) - PROMPT_PAD,
        metrics.prompt_w + 2 * PROMPT_PAD,
        metrics.prompt_h + 2 * PROMPT_PAD,
    )
}

/// Whether the prompt's panel has a place that an `i32` can hold.
pub open spec fn promptable(width: int, height: int, metrics: Metrics) -> bool {
    let (x, y, w, h) = prompt_panel(width, height, metrics);
    geometry::fits_i32(x) && geometry::fits_i32(y) && geometry::fits_i32(w) && geometry::fits_i32(h)
}

/// Where the prompt's panel goes.
///
/// Centred on this pane rather than on the desktop, and drawn on every pane: with two monitors
/// there is no one place that is "the middle", and a prompt on the screen the user is not looking
/// at is a prompt they never read.
fn draw_prompt(width: i32, height: i32, metrics: &Metrics) -> (r: Rect)
    requires
        promptable(width as int, height as int, *metrics),
    ensures
        (r.x as int, r.y as int, r.w as int, r.h as int) == prompt_panel(
            width as int,
            height as int,
            *metrics,
        ),
{
    let spare_w: i64 = width as i64 - metrics.prompt_w as i64;
    let spare_h: i64 = height as i64 - metrics.prompt_h as i64;
    Rect::new(
        (halved(spare_w) - PROMPT_PAD as i64) as i32,
        (halved(spare_h) - PROMPT_PAD as i64) as i32,
        metrics.prompt_w + PROMPT_PAD * 2,
        metrics.prompt_h + PROMPT_PAD * 2,
    )
}

/// What a pane shows of the desktop at `(px, py)`: the pixel there, darkened everywhere the
/// selection is not.
pub open spec fn pane_pixel(
    regions: Seq<shot::Region>,
    order: ByteOrder,
    selection: Option<Rect>,
    px: int,
    py: int,
) -> PanePixel {
    PanePixel {
        color: shot::last_reading(regions, order, px, py),
        dimmed: !(selection matches Some(rect) && rect.covers(px, py)),
    }
}

impl<'a> Scene<'a> {
    /// One row of the pane: the frozen desktop, dimmed everywhere the selection is not.
    ///
    /// Worked out pixel by pixel rather than as a fill plus four dimmed rectangles around it. It
    /// is the same work, and it cannot get the seams wrong, which the four-rectangle version does
    /// the moment the selection hangs off the edge of this pane.
    pub fn row(&self, order: ByteOrder, y: i32, width: i32) -> (r: Vec<PanePixel>)
        requires
            geometry::fits_i32(self.origin.1 + y),
            width > 0 ==> self.origin.0 + (width - 1) <= i32::MAX,
        ensures
            r@ == Seq::new(
                geometry::max(0, width as int) as nat,
                |x: int|
                    pane_pixel(
                        self.shot.regions@,
                        order,
                        self.selection@.rect,
                        self.origin.0 + x,
                        self.origin.1 + y,
                    ),
            ),
    {
        let selection = self.selection.rect();
        let py: i32 = self.origin.1 + y;
        let mut row: Vec<PanePixel> = Vec::new();
        let mut x: i32 = 0;
        while x < width
            invariant
                0 <= x,
                x <= width || x == 0,
                width > 0 ==> self.origin.0 + (width - 1) <= i32::MAX,
                py == self.origin.1 + y,
                selection == self.selection@.rect,
                row@ == Seq::new(
                    x as nat,
                    |x: int|
                        pane_pixel(
                            self.shot.regions@,
                            order,
                            self.selection@.rect,
                            self.origin.0 + x,
                            self.origin.1 + y,
                        ),
                ),
            decreases width - x,
        {
            let px: i32 = self.origin.0 + x;
            let color: u32 = self.shot.pixel_in(order, px, py);
            let inside = match selection {
                Some(rect) => rect.contains(px, py),
                None => false,
            };
            row.push(PanePixel { color, dimmed: !inside });
            x += 1;
        }
        row
    }
}

/// Whether everything a pane of `width` by `height` shows has a place that an `i32` can hold.
pub open spec fn paintable(scene: Scene, width: int, height: int, metrics: Metrics) -> bool {
    match scene.selection@.rect {
        Some(rect) => {
            &&& outlinable(rect, scene.origin)
            &&& scene.bar matches Some(bar) ==> drawable(
                *bar,
                scene.origin,
                metrics.readout_ascent as int,
            )
        },
        None => promptable(width, height, metrics),
    }
}

/// Whether a rectangle has coordinates in a pane at `origin`.
fn can_shift(rect: Rect, origin: (i32, i32)) -> (r: bool)
    ensures
        r == localizable(rect, origin),
{
    let x: i64 = rect.x as i64 - origin.0 as i64;
    let y: i64 = rect.y as i64 - origin.1 as i64;
    i32::MIN as i64 <= x && x <= i32::MAX as i64 && i32::MIN as i64 <= y && y <= i32::MAX as i64
}

/// Whether a selection can be outlined in a pane at `origin`.
fn can_outline(rect: Rect, origin: (i32, i32)) -> (r: bool)
    ensures
        r == outlinable(rect, origin),
{
    if rect.w <= 0 || rect.h <= 0 || !rect.has_edges() {
        return false;
    }
    let (least, most): (i64, i64) = (i32::MIN as i64, i32::MAX as i64);
    let grab: i32 = grab_radius(rect);
    let radius: i64 = if grab < HANDLE_DRAW { grab as i64 } else { HANDLE_DRAW as i64 };
    let x: i64 = rect.x as i64 - origin.0 as i64;
    let y: i64 = rect.y as i64 - origin.1 as i64;
    rect.w as i64 + 2 <= most && rect.h as i64 + 2 <= most && least <= x - radius && least <= y
        - radius && x + rect.w as i64 - 1 <= most && y + rect.h as i64 - 1 <= most
}

/// Whether a bar can be drawn in a pane at `origin`.
fn can_draw_bar(bar: &Bar, origin: (i32, i32), ascent: i32) -> (r: bool)
    ensures
        r == drawable(*bar, origin, ascent as int),
{
    if !can_shift(bar.rect, origin) || !can_shift(bar.readout, origin) {
        return false;
    }
    let readout = shift(bar.readout, origin);
    let tall: i64 = readout.h as i64 + ascent as i64;
    let baseline: i64 = readout.y as i64 + halved(tall) - 2;
    if baseline < i32::MIN as i64 || baseline > i32::MAX as i64 {
        return false;
    }
    let mut i: usize = 0;
    while i < bar.buttons.len()
        invariant
            i <= bar.buttons@.len(),
            forall|j: int| 0 <= j < i ==> localizable((#[trigger] bar.buttons@[j]).1, origin),
        decreases bar.buttons@.len() - i,
    {
        let (_, rect) = bar.buttons[i];
        if !can_shift(rect, origin) {
            assert(!localizable(bar.buttons@[i as int].1, origin));
            return false;
        }
        i += 1;
    }
    true
}

/// Whether [`paint`] can work out what a pane of `width` by `height` shows.
pub fn can_paint(scene: &Scene, width: i32, height: i32, metrics: &Metrics) -> (r: bool)
    ensures
        r == paintable(*scene, width as int, height as int, *metrics),
{
    match scene.selection.rect() {
        Some(rect) => {
            let bar_ok = match scene.bar {
                Some(bar) => can_draw_bar(bar, scene.origin, metrics.readout_ascent),
                None => true,
            };
            can_outline(rect, scene.origin) && bar_ok
        },
        None => {
            let (least, most): (i64, i64) = (i32::MIN as i64, i32::MAX as i64);
            let pad: i64 = PROMPT_PAD as i64;
            let (text_w, text_h): (i64, i64) = (metrics.prompt_w as i64, metrics.prompt_h as i64);
            let spare_w: i64 = width as i64 - text_w;
            let spare_h: i64 = height as i64 - text_h;
            let x: i64 = halved(spare_w) - pad;
            let y: i64 = halved(spare_h) - pad;
            least <= x && x <= most && least <= y && y <= most && least <= text_w + 2 * pad
                && text_w + 2 * pad <= most && least <= text_h + 2 * pad && text_h + 2 * pad <= most
        },
    }
}

/// Whether `art` is what a pane of `width` by `height` shows over the frozen desktop: the
/// selection and the bar over it, or the prompt where nothing is selected.
pub open spec fn painted(
    art: PaneArt,
    scene: Scene,
    width: int,
    height: int,
    metrics: Metrics,
) -> bool {
    match scene.selection@.rect {
        Some(rect) => {
            &&& art.figure matches Figure::Selection(figure) && selection_drawn(
                figure,
                rect,
                scene.origin,
            )
            &&& match scene.bar {
                Some(bar) => art.bar matches Some(shown) && bar_drawn(
                    shown,
                    *bar,
                    rect,
                    scene.origin,
                    scene.hovered,
                    scene.pressed,
                    metrics.readout_ascent as int,
                ),
                None => art.bar is None,
            }
        },
        None => {
            &&& art.figure matches Figure::Prompt(panel) && (
                panel.x as int,
                panel.y as int,
                panel.w as int,
                panel.h as int,
            ) == prompt_panel(width, height, metrics)
            &&& art.bar is None
        },
    }
}

/// Work out what one pane shows over the frozen desktop.
pub fn paint(scene: &Scene, width: i32, height: i32, metrics: &Metrics) -> (r: PaneArt)
    requires
        paintable(*scene, width as int, height as int, *metrics),
    ensures
        painted(r, *scene, width as int, height as int, *metrics),
{
    match scene.selection.rect() {
        Some(rect) => {
            let figure = Figure::Selection(draw_selection(rect, scene.origin));
            let bar = match scene.bar {
                Some(bar) => Some(
                    draw_bar(
                        bar,
                        rect,
                        scene.origin,
                        scene.hovered,
                        scene.pressed,
                        metrics.readout_ascent,
                    ),
                ),
                None => None,
            };
            PaneArt { figure, bar }
        },
        None => PaneArt {
            figure: Figure::Prompt(draw_prompt(width, height, metrics)),
            bar: None,
        },
    }
}

/// The bar can be pressed: it lies on the desktop whenever the desktop is big enough to hold it.
pub proof fn the_bar_is_on_the_desktop(selection: Rect, bounds: Rect, w: int)
    requires
        bounds.fits(),
        selection.within(bounds),
        !selection.empty(),
        0 <= w <= bounds.w,
        BAR_H <= bounds.h,
    ensures
        bar_rect(selection, bounds, w).within(bounds),
{
}

/// The bar does not change width as the selection is dragged.
pub proof fn the_bar_keeps_its_width(
    a: Rect,
    b: Rect,
    bounds: Rect,
    metrics: Metrics,
    buttons: Seq<Button>,
)
    ensures
        laid_out(a, bounds, metrics, buttons).rect.w == laid_out(
            b,
            bounds,
            metrics,
            buttons,
        ).rect.w,
{
}

/// Where there is room below or above the selection, the bar does not cover any of it.
pub proof fn the_bar_keeps_clear_of_the_selection(
    selection: Rect,
    bounds: Rect,
    w: int,
    px: int,
    py: int,
)
    requires
        bounds.fits(),
        selection.within(bounds),
        !selection.empty(),
        0 <= w <= bounds.w,
        selection.bottom_edge() + BAR_GAP + BAR_H <= bounds.bottom_edge() || bounds.y
            <= selection.y - BAR_GAP - BAR_H,
    ensures
        !(selection.covers(px, py) && bar_rect(selection, bounds, w).covers(px, py)),
{
}

/// Every button, and the readout, lies on the bar; the readout and the buttons follow one
/// another from left to right without overlapping.
pub proof fn buttons_lie_on_the_bar(
    selection: Rect,
    bounds: Rect,
    metrics: Metrics,
    buttons: Seq<Button>,
    i: int,
)
    requires
        selection.fits(),
        bar_fits(bounds, metrics, buttons),
        bounds.y + BAR_H <= i32::MAX,
        0 <= i < buttons.len(),
    ensures
        ({
            let bar = bar_rect(selection, bounds, metrics.bar_w(buttons));
            let rects = button_rects(bar, metrics, buttons);
            &&& rects[i].1.within(bar)
            &&& readout_rect(bar, metrics).within(bar)
            &&& readout_rect(bar, metrics).right_edge() < rects[i].1.x
            &&& forall|j: int|
                i < j < buttons.len() ==> rects[i].1.right_edge() < (#[trigger] rects[j]).1.x
        }),
{
    let w = metrics.bar_w(buttons);
    let bar = bar_rect(selection, bounds, w);
    let rects = button_rects(bar, metrics, buttons);
    row_grows(metrics, buttons, 0);
    row_grows(metrics, buttons, i);
    assert forall|j: int| i < j < buttons.len() implies rects[i].1.right_edge() < (
    #[trigger] rects[j]).1.x by {
        row_grows(metrics, buttons, j);
        row_grows(metrics, buttons.take(j), i);
        assert(buttons.take(j).take(i) == buttons.take(i));
        assert(buttons.take(j)[i] == buttons[i]);
    }
}

/// A button is pressed where it is drawn: a point on a button's rectangle is on that button, and
/// a point that is on a button is on the bar.
pub proof fn a_button_is_pressed_where_it_is_drawn(
    selection: Rect,
    bounds: Rect,
    metrics: Metrics,
    buttons: Seq<Button>,
    i: int,
    px: int,
    py: int,
)
    requires
        selection.fits(),
        bar_fits(bounds, metrics, buttons),
        bounds.y + BAR_H <= i32::MAX,
        0 <= i < buttons.len(),
        ({
            let bar = bar_rect(selection, bounds, metrics.bar_w(buttons));
            button_rects(bar, metrics, buttons)[i].1.covers(px, py)
        }),
    ensures
        ({
            let bar = bar_rect(selection, bounds, metrics.bar_w(buttons));
            &&& button_under(button_rects(bar, metrics, buttons), px, py) == Some(buttons[i])
            &&& bar.covers(px, py)
        }),
{
    let bar = bar_rect(selection, bounds, metrics.bar_w(buttons));
    let rects = button_rects(bar, metrics, buttons);
    buttons_lie_on_the_bar(selection, bounds, metrics, buttons, i);
    assert forall|k: int| 0 <= k < i implies !(#[trigger] rects[k]).1.covers(px, py) by {
        buttons_lie_on_the_bar(selection, bounds, metrics, buttons, k);
        assert(rects[k].1.right_edge() < rects[i].1.x);
    }
    first_covering(rects, i, px, py);
}

/// The button under a point is the first whose rectangle covers it.
proof fn first_covering(rects: Seq<(Button, Rect)>, i: int, px: int, py: int)
    requires
        0 <= i < rects.len(),
        rects[i].1.covers(px, py),
        forall|k: int| 0 <= k < i ==> !(#[trigger] rects[k]).1.covers(px, py),
    ensures
        button_under(rects, px, py) == Some(rects[i].0),
    decreases i,
{
    if i > 0 {
        let rest = rects.drop_first();
        assert(rest[i - 1] == rects[i]);
        assert forall|k: int| 0 <= k < i - 1 implies !(#[trigger] rest[k]).1.covers(px, py) by {
            assert(rest[k] == rects[k + 1]);
        }
        assert(!rects[0].1.covers(px, py));
        first_covering(rest, i - 1, px, py);
    }
}

/// Where the bar is: thirty-two pixels tall; eight below the selection where it fits on the desktop
/// there, else eight above where it fits there, else inside, eight above the bottom of the
/// selection, but never off the top of the desktop. It is centred on the selection, to the pixel,
/// as far as that keeps it on the desktop.
pub proof fn where_the_bar_is(selection: Rect, bounds: Rect, w: int)
    requires
        bounds.x + bounds.w <= 0x7fff_ffff,
        bounds.y + bounds.h <= 0x7fff_ffff,
        bounds.x <= selection.x && selection.x + selection.w <= bounds.x + bounds.w,
        bounds.y <= selection.y && selection.y + selection.h <= bounds.y + bounds.h,
        selection.w > 0,
        selection.h > 0,
        0 <= w <= bounds.w,
    ensures
        ({
            let bar = bar_rect(selection, bounds, w);
            let below = selection.y + selection.h;
            &&& bar.w == w && bar.h == 32
            &&& below + 40 <= bounds.y + bounds.h ==> bar.y == below + 8
            &&& below + 40 > bounds.y + bounds.h && selection.y - 40 >= bounds.y ==> bar.y
                == selection.y - 40
            &&& below + 40 > bounds.y + bounds.h && selection.y - 40 < bounds.y && below - 40
                >= bounds.y ==> bar.y == below - 40
            &&& below + 40 > bounds.y + bounds.h && selection.y - 40 < bounds.y && below - 40
                < bounds.y ==> bar.y == bounds.y
            &&& bounds.x <= bar.x && bar.x + bar.w <= bounds.x + bounds.w
            &&& -1 <= (2 * bar.x + bar.w) - (2 * selection.x + selection.w) <= 1 || bar.x == bounds.x
                || bar.x + bar.w == bounds.x + bounds.w
            &&& 2 * bar.x + bar.w < 2 * selection.x + selection.w - 1 ==> bar.x + bar.w == bounds.x
                + bounds.w
            &&& 2 * bar.x + bar.w > 2 * selection.x + selection.w + 1 ==> bar.x == bounds.x
        }),
{
}

/// How the bar is laid out: six pixels of padding all around, the readout, and the buttons to the
/// right of it, with six pixels between each two. A button is as wide as its label and fourteen
/// pixels either side of that, but at least sixty-four; it and the readout are twenty pixels tall.
pub proof fn how_the_bar_is_laid_out(
    selection: Rect,
    bounds: Rect,
    metrics: Metrics,
    buttons: Seq<Button>,
    i: int,
)
    requires
        selection.fits(),
        bar_fits(bounds, metrics, buttons),
        0 <= i < buttons.len(),
    ensures
        ({
            let bar = laid_out(selection, bounds, metrics, buttons);
            let label = match buttons[i] {
                Button::Save => metrics.save_w,
                Button::Copy => metrics.copy_w,
                Button::Cancel => metrics.cancel_w,
            };
            let rect = bar.buttons[i].1;
            &&& bar.buttons.len() == buttons.len()
            &&& bar.readout == (Rect {
                x: (bar.rect.x + 6) as i32,
                y: (bar.rect.y + 6) as i32,
                w: metrics.readout_w,
                h: 20,
            })
            &&& bar.buttons[i].0 == buttons[i]
            &&& rect.y == (bar.rect.y + 6) as i32 && rect.h == 20
            &&& label + 28 >= 64 ==> rect.w == label + 28
            &&& label + 28 < 64 ==> rect.w == 64
            &&& i == 0 ==> rect.x == bar.rect.x + 6 + metrics.readout_w + 6
            &&& i > 0 ==> rect.x == bar.buttons[i - 1].1.x + bar.buttons[i - 1].1.w + 6
            &&& i == buttons.len() - 1 ==> rect.x + rect.w + 6 == bar.rect.x + bar.rect.w
        }),
{
    let w = metrics.bar_w(buttons);
    row_grows(metrics, buttons, 0);
    row_grows(metrics, buttons, i);
    assert(buttons.take(0) == Seq::<Button>::empty());
    if i > 0 {
        row_grows(metrics, buttons, i - 1);
        assert(buttons.take(i).drop_last() == buttons.take(i - 1));
        assert(buttons.take(i).last() == buttons[i - 1]);
    }
    if i == buttons.len() - 1 {
        assert(buttons.drop_last() == buttons.take(i));
        assert(buttons.last() == buttons[i]);
    }
}

/// Save comes before Copy and Copy before Cancel, each if and only if it is offered.
pub proof fn the_order_of_the_buttons(offered: Offered)
    ensures
        offered.buttons() == (if offered.save {
            seq![Button::Save]
        } else {
            Seq::<Button>::empty()
        }) + (if offered.copy {
            seq![Button::Copy]
        } else {
            Seq::<Button>::empty()
        }) + (if offered.cancel {
            seq![Button::Cancel]
        } else {
            Seq::<Button>::empty()
        }),
{
    let pred = |button: Button| offered.has(button);
    let order = Button::ORDER@;
    reveal(Seq::filter);
    assert(order == seq![Button::Save, Button::Copy, Button::Cancel]);
    let two = order.drop_last();
    let one = two.drop_last();
    let none = one.drop_last();
    assert(none == Seq::<Button>::empty());
    assert(one.last() == Button::Save && two.last() == Button::Copy && order.last()
        == Button::Cancel);
    assert(none.filter(pred) == Seq::<Button>::empty());
    assert(one.filter(pred) == (if offered.save {
        seq![Button::Save]
    } else {
        Seq::<Button>::empty()
    }));
    let first = one.filter(pred);
    assert(two.filter(pred) == (if offered.copy {
        first.push(Button::Copy)
    } else {
        first
    }));
    assert(order.filter(pred) == (if offered.cancel {
        two.filter(pred).push(Button::Cancel)
    } else {
        two.filter(pred)
    }));
    assert(offered.buttons() == order.filter(pred));
}

/// The button under a point is the first whose columns and rows the point is in, and none where it
/// is in those of none.
pub proof fn the_button_under_a_point(buttons: Seq<(Button, Rect)>, i: int, px: int, py: int)
    requires
        0 <= i <= buttons.len(),
        forall|k: int|
            0 <= k < i ==> !(0 <= px - (#[trigger] buttons[k]).1.x < buttons[k].1.w && 0 <= py
                - buttons[k].1.y < buttons[k].1.h),
        i < buttons.len() ==> 0 <= px - buttons[i].1.x < buttons[i].1.w && 0 <= py - buttons[i].1.y
            < buttons[i].1.h,
    ensures
        i == buttons.len() ==> button_under(buttons, px, py) is None,
        i < buttons.len() ==> button_under(buttons, px, py) == Some(buttons[i].0),
    decreases buttons.len(),
{
    if i > 0 {
        let rest = buttons.drop_first();
        assert(!buttons[0].1.covers(px, py));
        assert forall|k: int| 0 <= k < i - 1 implies !(0 <= px - (#[trigger] rest[k]).1.x
            < rest[k].1.w && 0 <= py - rest[k].1.y < rest[k].1.h) by {
            assert(rest[k] == buttons[k + 1]);
        }
        if i < buttons.len() {
            assert(rest[i - 1] == buttons[i]);
        }
        the_button_under_a_point(rest, i - 1, px, py);
    }
}

/// A pane shows the desktop at its own place: a pixel of the desktop is in a rectangle if and only
/// if the pane's pixel there is in what the pane shows of the rectangle.
pub proof fn a_pane_shows_the_desktop_at_its_place(
    rect: Rect,
    origin: (i32, i32),
    px: int,
    py: int,
)
    requires
        -0x8000_0000 <= rect.x - origin.0 <= 0x7fff_ffff,
        -0x8000_0000 <= rect.y - origin.1 <= 0x7fff_ffff,
    ensures
        localizable(rect, origin),
        ({
            let shown = local(rect, origin);
            &&& shown.x + origin.0 == rect.x && shown.y + origin.1 == rect.y
            &&& shown.w == rect.w && shown.h == rect.h
        }),
{
}

/// How a selection is drawn: an outline on its own edge, another one pixel outside that, and its
/// eight handles, each a square around the pixel where the handle sits, of up to four pixels either
/// side of it and never more than can be grabbed.
pub proof fn how_a_selection_is_drawn(art: SelectionArt, rect: Rect, origin: (i32, i32), k: int)
    requires
        selection_drawn(art, rect, origin),
        outlinable(rect, origin),
        -0x8000_0000 <= rect.x - origin.0 - 4,
        -0x8000_0000 <= rect.y - origin.1 - 4,
        0 <= k < 8,
    ensures
        art.inner.x == rect.x - origin.0 && art.inner.y == rect.y - origin.1,
        art.inner.w == rect.w && art.inner.h == rect.h,
        art.outer.x == art.inner.x - 1 && art.outer.y == art.inner.y - 1,
        art.outer.w == rect.w + 2 && art.outer.h == rect.h + 2,
        art.handles@.len() == 8,
        ({
            let (handle, square) = (Handle::ALL[k], art.handles@[k]);
            let reach = if select::radius(rect) < 4 {
                select::radius(rect)
            } else {
                4
            };
            &&& square.x + reach == handle.column(rect) - origin.0
            &&& square.y + reach == handle.row(rect) - origin.1
            &&& square.w == 2 * reach + 1 && square.h == 2 * reach + 1
        }),
{
}

/// How the bar is drawn: at its place on the pane, with the size of the selection on it, and each
/// button at its own place, pressed in if and only if the pointer is over it and went down on it.
pub proof fn how_the_bar_is_drawn(
    art: BarArt,
    bar: Bar,
    rect: Rect,
    origin: (i32, i32),
    hovered: Option<Button>,
    pressed: Option<Button>,
    ascent: int,
    i: int,
)
    requires
        bar_drawn(art, bar, rect, origin, hovered, pressed, ascent),
        drawable(bar, origin, ascent),
        0 <= i < bar.buttons@.len(),
    ensures
        art.panel.x == bar.rect.x - origin.0 && art.panel.y == bar.rect.y - origin.1,
        art.panel.w == bar.rect.w && art.panel.h == bar.rect.h,
        art.readout@ == text::signed_decimal(rect.w as int) + " \u{d7} "@ + text::signed_decimal(
            rect.h as int,
        ),
        art.readout_x == bar.readout.x - origin.0,
        bar.readout.h + ascent >= 0 ==> art.readout_baseline == bar.readout.y - origin.1 + (
        bar.readout.h + ascent) / 2 - 2,
        art.buttons@.len() == bar.buttons@.len(),
        art.buttons@[i].0 == bar.buttons@[i].0,
        art.buttons@[i].1.x == bar.buttons@[i].1.x - origin.0 && art.buttons@[i].1.y
            == bar.buttons@[i].1.y - origin.1,
        art.buttons@[i].1.w == bar.buttons@[i].1.w && art.buttons@[i].1.h == bar.buttons@[i].1.h,
        art.buttons@[i].2 <==> hovered == Some(bar.buttons@[i].0) && pressed == Some(
            bar.buttons@[i].0,
        ),
{
    assert(localizable(bar.buttons@[i].1, origin));
}

/// The prompt is in the middle of its pane, to the pixel, with eighteen pixels of padding around
/// its text.
pub proof fn the_prompt_is_in_the_middle(width: int, height: int, metrics: Metrics)
    ensures
        ({
            let (x, y, w, h) = prompt_panel(width, height, metrics);
            &&& w == metrics.prompt_w + 36 && h == metrics.prompt_h + 36
            &&& -1 <= 2 * x + w - width <= 1
            &&& -1 <= 2 * y + h - height <= 1
            &&& width >= metrics.prompt_w ==> 2 * x + w <= width
            &&& height >= metrics.prompt_h ==> 2 * y + h <= height
        }),
{
}

/// What a pane shows at a place: the desktop's pixel there, darkened if and only if it is no pixel
/// of the selection.
pub proof fn what_is_not_selected_is_darkened(
    regions: Seq<shot::Region>,
    order: ByteOrder,
    selection: Option<Rect>,
    px: int,
    py: int,
)
    ensures
        ({
            let pixel = pane_pixel(regions, order, selection, px, py);
            &&& pixel.color == shot::last_reading(regions, order, px, py)
            &&& selection is None ==> pixel.dimmed
            &&& selection matches Some(rect) ==> (pixel.dimmed <==> !(0 <= px - rect.x < rect.w && 0
                <= py - rect.y < rect.h))
        }),
{
}

/// What a pane shows over the desktop: the selection, and the bar where there is one, while
/// something is selected; and the prompt, and no bar, while nothing is.
pub proof fn what_is_drawn_over_the_desktop(
    art: PaneArt,
    scene: Scene,
    width: int,
    height: int,
    metrics: Metrics,
)
    requires
        painted(art, scene, width, height, metrics),
    ensures
        scene.selection@.rect is None ==> art.figure is Prompt && art.bar is None,
        scene.selection@.rect matches Some(rect) ==> {
            &&& art.figure matches Figure::Selection(figure) && selection_drawn(
                figure,
                rect,
                scene.origin,
            )
            &&& art.bar is Some <==> scene.bar is Some
            &&& scene.bar matches Some(bar) ==> (art.bar matches Some(shown) && bar_drawn(
                shown,
                *bar,
                rect,
                scene.origin,
                scene.hovered,
                scene.pressed,
                metrics.readout_ascent as int,
            ))
        },
        art.figure matches Figure::Prompt(panel) ==> (
            panel.x as int,
            panel.y as int,
            panel.w as int,
            panel.h as int,
        ) == prompt_panel(width, height, metrics),
{
}

/// What each button says.
pub proof fn what_the_buttons_say()
    ensures
        Button::Save.text() == "Save"@,
        Button::Copy.text() == "Copy"@,
        Button::Cancel.text() == "Cancel"@,
{
}

/// A bar can be laid out where it is no wider than can be counted, from the left edge of the
/// desktop on.
pub proof fn where_a_bar_can_be_laid_out(bounds: Rect, metrics: Metrics, buttons: Seq<Button>)
    ensures
        bar_fits(bounds, metrics, buttons) <==> {
            &&& -0x8000_0000 <= bounds.x + bounds.w <= 0x7fff_ffff
            &&& -0x8000_0000 <= bounds.y + bounds.h <= 0x7fff_ffff
            &&& metrics.readout_w >= 0
            &&& metrics.bar_w(buttons) <= 0x7fff_ffff
            &&& bounds.x + metrics.bar_w(buttons) <= 0x7fff_ffff
            &&& bounds.y + 6 <= 0x7fff_ffff
        },
{
}

/// What can be drawn is what has a place that an `i32` can hold: a selection with a pixel whose
/// outer outline and handles have one; a bar that has one on the pane, with its readout, its
/// baseline and each of its buttons; and a prompt whose panel has one.
pub proof fn what_can_be_drawn(
    rect: Rect,
    origin: (i32, i32),
    bar: Bar,
    ascent: int,
    width: int,
    height: int,
    metrics: Metrics,
)
    ensures
        outlinable(rect, origin) <==> {
            let reach = if select::radius(rect) < 4 {
                select::radius(rect)
            } else {
                4
            };
            &&& 0 < rect.w <= 0x7fff_fffd && 0 < rect.h <= 0x7fff_fffd
            &&& rect.x + rect.w <= 0x7fff_ffff && rect.y + rect.h <= 0x7fff_ffff
            &&& rect.x - origin.0 - reach >= -0x8000_0000
            &&& rect.y - origin.1 - reach >= -0x8000_0000
            &&& rect.x + rect.w - 1 - origin.0 <= 0x7fff_ffff
            &&& rect.y + rect.h - 1 - origin.1 <= 0x7fff_ffff
        },
        localizable(rect, origin) <==> -0x8000_0000 <= rect.x - origin.0 <= 0x7fff_ffff
            && -0x8000_0000 <= rect.y - origin.1 <= 0x7fff_ffff,
        drawable(bar, origin, ascent) <==> {
            &&& localizable(bar.rect, origin)
            &&& localizable(bar.readout, origin)
            &&& -0x8000_0000 <= bar.readout.y - origin.1 + select::half(bar.readout.h + ascent) - 2
                <= 0x7fff_ffff
            &&& forall|i: int|
                0 <= i < bar.buttons@.len() ==> localizable((#[trigger] bar.buttons@[i]).1, origin)
        },
        promptable(width, height, metrics) <==> {
            let (x, y, w, h) = prompt_panel(width, height, metrics);
            &&& -0x8000_0000 <= x <= 0x7fff_ffff && -0x8000_0000 <= y <= 0x7fff_ffff
            &&& -0x8000_0000 <= w <= 0x7fff_ffff && -0x8000_0000 <= h <= 0x7fff_ffff
        },
{
}

/// A pane can be worked out where what it shows can be drawn: the selection and any bar over it
/// while something is selected, and the prompt while nothing is.
pub proof fn which_panes_can_be_worked_out(scene: Scene, width: int, height: int, metrics: Metrics)
    ensures
        scene.selection@.rect is None ==> (paintable(scene, width, height, metrics)
            <==> promptable(width, height, metrics)),
        scene.selection@.rect matches Some(rect) ==> (paintable(scene, width, height, metrics)
            <==> outlinable(rect, scene.origin) && (scene.bar matches Some(bar) ==> drawable(
            *bar,
            scene.origin,
            metrics.readout_ascent as int,
        ))),
{
}

} // verus!
