//! The frozen desktop: what was captured, and how a rectangle of it becomes a PNG.
//!
//! One [`Region`] per monitor, each holding that monitor's pixels and where it sits in the
//! global layout. Everything above this treats the desktop as one image in global coordinates
//! and never learns there is more than one monitor -- which is what lets a selection be dragged
//! across the gap between two of them.
//!
//! ## Pixels
//!
//! The compositor writes `Xrgb8888` or `Argb8888`, both of which are a native-endian `u32` of
//! `0xAARRGGBB` -- so in memory, little-endian, the bytes are B, G, R, A.
//!
//! ## Why the PNG has no alpha channel
//!
//! `Xrgb8888`'s fourth byte is **undefined**: the compositor is free to leave whatever was in
//! that memory. Writing it as an alpha channel produces a PNG that is transparent in patches,
//! which is invisible until somebody opens the file on a white background. A screenshot of a
//! desktop has no meaningful transparency anyway, so alpha is dropped rather than trusted, on
//! both formats.

use crate::geometry;
use crate::geometry::Rect;
use crate::text;
use vstd::prelude::*;

verus! {

/// Which end of a number the machine stores first.
#[derive(Debug, Clone, Copy, PartialEq, Eq, Structural)]
pub enum ByteOrder {
    Little,
    Big,
}

/// `u16::from_ne_bytes`: two bytes as a number in the machine's own byte order, which is one of
/// the two there are. Which of them it is, the contract leaves open.
#[verifier::external_body]
fn native_u16(b0: u8, b1: u8) -> (r: u16)
    ensures
        r == b0 + 256 * b1 || r == 256 * b0 + b1,
{
    u16::from_ne_bytes([b0, b1])
}

/// Whether reading the bytes one and zero as a number, in the machine's own byte order, can have
/// given `probe`.
pub closed spec fn probed(probe: u16) -> bool {
    call_ensures(native_u16, (1u8, 0u8), probe)
}

impl ByteOrder {
    /// The byte order shown by the bytes one and zero reading as the number `probe`: little-endian
    /// where that is one, and big-endian otherwise.
    pub open spec fn showing(probe: u16) -> ByteOrder {
        if probe == 1 {
            ByteOrder::Little
        } else {
            ByteOrder::Big
        }
    }

    /// Whether this is the byte order of the machine, as far as reading the bytes one and zero
    /// can have shown it.
    pub open spec fn is_native(self) -> bool {
        exists|probe: u16| #[trigger] probed(probe) && self == ByteOrder::showing(probe)
    }

    /// The byte order shown by the bytes one and zero reading as the number `probe`: little-endian
    /// where that is one, and big-endian otherwise.
    pub fn shown_by(probe: u16) -> (r: ByteOrder)
        ensures
            r == ByteOrder::showing(probe),
    {
        if probe == 1 {
            ByteOrder::Little
        } else {
            ByteOrder::Big
        }
    }

    /// The byte order of the machine this runs on: the one that reading the bytes one and zero
    /// shows. Which of the two that is, depends on the machine.
    pub fn native() -> (r: ByteOrder)
        ensures
            r.is_native(),
    {
        let probe: u16 = native_u16(1, 0);
        assert(probed(probe));
        ByteOrder::shown_by(probe)
    }
}

/// The number that four bytes in memory hold.
pub open spec fn word(order: ByteOrder, b0: u8, b1: u8, b2: u8, b3: u8) -> u32 {
    match order {
        ByteOrder::Little => (b0 + 0x100 * b1 + 0x1_0000 * b2 + 0x100_0000 * b3) as u32,
        ByteOrder::Big => (b3 + 0x100 * b2 + 0x1_0000 * b1 + 0x100_0000 * b0) as u32,
    }
}

/// One monitor's worth of frozen desktop.
pub struct Region {
    /// Where this monitor sits in the global layout, and how big it is.
    pub rect: Rect,
    /// `rect.w * rect.h` pixels, four bytes each, in the layout described above.
    pub pixels: Vec<u8>,
}

impl Region {
    /// Where the bytes of the pixel at `(px, py)` start.
    pub open spec fn offset(self, px: int, py: int) -> int {
        ((py - self.rect.y) * self.rect.w + (px - self.rect.x)) * 4
    }

    /// The pixel at a global coordinate, or `None` off this monitor or past the bytes it has.
    pub open spec fn reading(self, order: ByteOrder, px: int, py: int) -> Option<u32> {
        let offset = self.offset(px, py);
        let bytes = self.pixels@;
        if self.rect.covers(px, py) && offset + 4 <= bytes.len() {
            Some(
                word(order, bytes[offset], bytes[offset + 1], bytes[offset + 2], bytes[offset + 3]),
            )
        } else {
            None
        }
    }

    /// One pixel, or `None` off this monitor. Coordinates are **global**, not region-local.
    pub fn at(&self, order: ByteOrder, x: i32, y: i32) -> (r: Option<u32>)
        ensures
            r == self.reading(order, x as int, y as int),
    {
        if !self.rect.contains(x, y) {
            return None;
        }
        let local_x: u64 = (x as i64 - self.rect.x as i64) as u64;
        let local_y: u64 = (y as i64 - self.rect.y as i64) as u64;
        let w: u64 = self.rect.w as u64;
        proof {
            let rows = self.rect.h as int;
            assert(0 <= local_y * w <= (rows - 1) * w && (rows - 1) * w + w - 1
                <= 0x3fff_ffff_ffff_fffe) by (nonlinear_arith)
                requires
                    0 <= local_y <= rows - 1,
                    1 <= w <= 0x7fff_ffff,
                    1 <= rows <= 0x7fff_ffff,
            ;
        }
        let offset: u64 = (local_y * w + local_x) * 4;
        let len: u64 = self.pixels.len() as u64;
        if offset >= len || len - offset < 4 {
            return None;
        }
        let i: usize = offset as usize;
        let (b0, b1, b2, b3) = (
            self.pixels[i] as u32,
            self.pixels[i + 1] as u32,
            self.pixels[i + 2] as u32,
            self.pixels[i + 3] as u32,
        );
        Some(
            match order {
                ByteOrder::Little => b0 + 0x100 * b1 + 0x1_0000 * b2 + 0x100_0000 * b3,
                ByteOrder::Big => b3 + 0x100 * b2 + 0x1_0000 * b1 + 0x100_0000 * b0,
            },
        )
    }
}

/// The whole desktop, frozen.
pub struct Shot {
    pub regions: Vec<Region>,
}

/// What the desktop reads as where no monitor covers it.
///
/// Two monitors of different heights, or set at an angle to each other, leave gaps in the
/// bounding box that no capture covers. Opaque black rather than transparent: a hole in a
/// screenshot is worse than a black corner.
pub const NO_MONITOR: u32 = 0xff00_0000;

/// What the last of `regions` to have a pixel at `(px, py)` has there.
pub open spec fn last_reading(regions: Seq<Region>, order: ByteOrder, px: int, py: int) -> u32
    decreases regions.len(),
{
    if regions.len() == 0 {
        NO_MONITOR
    } else {
        match regions.last().reading(order, px, py) {
            Some(pixel) => pixel,
            None => last_reading(regions.drop_last(), order, px, py),
        }
    }
}

/// The smallest rectangle around `regions`, of which there is at least one.
pub open spec fn box_around(regions: Seq<Region>) -> (int, int, int, int)
    decreases regions.len(),
{
    let last = regions.last().rect;
    if regions.len() <= 1 {
        (last.x as int, last.y as int, last.right_edge(), last.bottom_edge())
    } else {
        let (left, top, right, bottom) = box_around(regions.drop_last());
        (
            geometry::min(left, last.x as int),
            geometry::min(top, last.y as int),
            geometry::max(right, last.right_edge()),
            geometry::max(bottom, last.bottom_edge()),
        )
    }
}

/// Whether every monitor has edges, and the desktop around them a size, that an `i32` can hold.
pub open spec fn measurable(regions: Seq<Region>) -> bool {
    &&& forall|i: int| 0 <= i < regions.len() ==> (#[trigger] regions[i]).rect.fits()
    &&& regions.len() > 0 ==> {
        let (left, top, right, bottom) = box_around(regions);
        right - left <= i32::MAX && bottom - top <= i32::MAX
    }
}

/// The bounding box of `regions`: what "the whole desktop" means.
pub open spec fn desktop(regions: Seq<Region>) -> Rect {
    if regions.len() == 0 {
        Rect { x: 0, y: 0, w: 0, h: 0 }
    } else {
        let (left, top, right, bottom) = box_around(regions);
        Rect { x: left as i32, y: top as i32, w: (right - left) as i32, h: (bottom - top) as i32 }
    }
}

/// The edges that [`box_around`] gives are edges that some monitor has.
proof fn box_is_made_of_edges(regions: Seq<Region>)
    requires
        regions.len() > 0,
        forall|i: int| 0 <= i < regions.len() ==> (#[trigger] regions[i]).rect.fits(),
    ensures
        ({
            let (left, top, right, bottom) = box_around(regions);
            &&& geometry::fits_i32(left) && geometry::fits_i32(top)
            &&& geometry::fits_i32(right) && geometry::fits_i32(bottom)
            &&& right - left >= i32::MIN && bottom - top >= i32::MIN
        }),
    decreases regions.len(),
{
    assert(regions[regions.len() - 1].rect.fits());
    if regions.len() > 1 {
        let before = regions.drop_last();
        assert forall|i: int| 0 <= i < before.len() implies (#[trigger] before[i]).rect.fits() by {
            assert(before[i] == regions[i]);
        }
        box_is_made_of_edges(before);
    }
}

/// The desktop has edges that an `i32` can hold.
pub proof fn the_desktop_has_edges(regions: Seq<Region>)
    requires
        measurable(regions),
    ensures
        desktop(regions).fits(),
{
    if regions.len() > 0 {
        box_is_made_of_edges(regions);
    }
}

impl Shot {
    /// The pixel at a global coordinate.
    pub open spec fn reading(self, order: ByteOrder, px: int, py: int) -> u32 {
        last_reading(self.regions@, order, px, py)
    }

    /// The edges around the first monitor and those after it, for the desktop's bounding box.
    fn edges(&self) -> (r: (i64, i64, i64, i64))
        requires
            self.regions@.len() > 0,
        ensures
            (r.0 as int, r.1 as int, r.2 as int, r.3 as int) == box_around(self.regions@),
            -0x1_0000_0000 <= r.0 <= 0x1_0000_0000,
            -0x1_0000_0000 <= r.1 <= 0x1_0000_0000,
            -0x1_0000_0000 <= r.2 <= 0x1_0000_0000,
            -0x1_0000_0000 <= r.3 <= 0x1_0000_0000,
    {
        let first = self.regions[0].rect;
        let mut left: i64 = first.x as i64;
        let mut top: i64 = first.y as i64;
        let mut right: i64 = first.x as i64 + first.w as i64;
        let mut bottom: i64 = first.y as i64 + first.h as i64;
        let mut i: usize = 1;
        assert(self.regions@.take(1).last() == self.regions@[0]);
        while i < self.regions.len()
            invariant
                1 <= i <= self.regions@.len(),
                (left as int, top as int, right as int, bottom as int) == box_around(
                    self.regions@.take(i as int),
                ),
                -0x1_0000_0000 <= left <= 0x1_0000_0000,
                -0x1_0000_0000 <= top <= 0x1_0000_0000,
                -0x1_0000_0000 <= right <= 0x1_0000_0000,
                -0x1_0000_0000 <= bottom <= 0x1_0000_0000,
            decreases self.regions@.len() - i,
        {
            let rect = self.regions[i].rect;
            assert(self.regions@.take(i + 1).drop_last() == self.regions@.take(i as int));
            assert(self.regions@.take(i + 1).last() == self.regions@[i as int]);
            let rect_right: i64 = rect.x as i64 + rect.w as i64;
            let rect_bottom: i64 = rect.y as i64 + rect.h as i64;
            if (rect.x as i64) < left {
                left = rect.x as i64;
            }
            if (rect.y as i64) < top {
                top = rect.y as i64;
            }
            if rect_right > right {
                right = rect_right;
            }
            if rect_bottom > bottom {
                bottom = rect_bottom;
            }
            i += 1;
        }
        assert(self.regions@.take(i as int) == self.regions@);
        (left, top, right, bottom)
    }

    /// Whether [`Shot::bounds`] can be worked out: every edge, and the size of the whole desktop,
    /// is a number that an `i32` can hold.
    pub fn has_bounds(&self) -> (r: bool)
        ensures
            r == measurable(self.regions@),
    {
        let mut i: usize = 0;
        while i < self.regions.len()
            invariant
                i <= self.regions@.len(),
                forall|j: int| 0 <= j < i ==> (#[trigger] self.regions@[j]).rect.fits(),
            decreases self.regions@.len() - i,
        {
            if !self.regions[i].rect.has_edges() {
                return false;
            }
            i += 1;
        }
        if self.regions.len() == 0 {
            return true;
        }
        let (left, top, right, bottom) = self.edges();
        right - left <= i32::MAX as i64 && bottom - top <= i32::MAX as i64
    }

    /// The bounding box of every monitor, in global coordinates.
    ///
    /// This is what "the whole desktop" means, and it is not always the sum of the monitors:
    /// two set side by side at different heights leave gaps, which read as [`NO_MONITOR`].
    pub fn bounds(&self) -> (r: Rect)
        requires
            measurable(self.regions@),
        ensures
            r == desktop(self.regions@),
    {
        if self.regions.len() == 0 {
            return Rect::new(0, 0, 0, 0);
        }
        proof {
            box_is_made_of_edges(self.regions@);
        }
        let (left, top, right, bottom) = self.edges();
        Rect::new(left as i32, top as i32, (right - left) as i32, (bottom - top) as i32)
    }

    /// One pixel of the frozen desktop, by global coordinate, read in a given byte order.
    ///
    /// The **last** region covering the point wins. Monitors do not normally overlap, but a
    /// mirrored or misconfigured layout can put two on the same coordinates, and picking
    /// deterministically beats whichever the iteration happened to reach first.
    pub fn pixel_in(&self, order: ByteOrder, x: i32, y: i32) -> (r: u32)
        ensures
            r == self.reading(order, x as int, y as int),
    {
        let mut n: usize = self.regions.len();
        assert(self.regions@.take(n as int) == self.regions@);
        while n > 0
            invariant
                n <= self.regions@.len(),
                last_reading(self.regions@, order, x as int, y as int) == last_reading(
                    self.regions@.take(n as int),
                    order,
                    x as int,
                    y as int,
                ),
            decreases n,
        {
            assert(self.regions@.take(n as int).last() == self.regions@[n - 1]);
            assert(self.regions@.take(n as int).drop_last() == self.regions@.take(n - 1));
            if let Some(pixel) = self.regions[n - 1].at(order, x, y) {
                return pixel;
            }
            n -= 1;
        }
        NO_MONITOR
    }

    /// One pixel of the frozen desktop, by global coordinate, in the machine's own byte order.
    pub fn pixel(&self, x: i32, y: i32) -> (r: u32)
        ensures
            exists|order: ByteOrder|
                order.is_native() && r == #[trigger] self.reading(order, x as int, y as int),
    {
        self.pixel_in(ByteOrder::native(), x, y)
    }
}

/// One of the three color channels of a `0xAARRGGBB` pixel: red, green, blue.
pub open spec fn channel(pixel: u32, which: int) -> u8 {
    if which == 0 {
        (pixel / 0x1_0000 % 0x100) as u8
    } else if which == 1 {
        (pixel / 0x100 % 0x100) as u8
    } else {
        (pixel % 0x100) as u8
    }
}

/// The packed RGB rows of a rectangle of the desktop: pixel by pixel along each row, row by row
/// from the top, three bytes each.
pub open spec fn rgb_rows(regions: Seq<Region>, order: ByteOrder, rect: Rect) -> Seq<u8> {
    let w = geometry::max(0, rect.w as int);
    let h = geometry::max(0, rect.h as int);
    Seq::new(
        (w * h * 3) as nat,
        |k: int|
            channel(
                last_reading(regions, order, rect.x + (k / 3) % w, rect.y + (k / 3) / w),
                k % 3,
            ),
    )
}

/// Whether a rectangle can be cropped: its last row and column are coordinates, and its RGB rows
/// fit in memory.
pub open spec fn croppable(rect: Rect) -> bool {
    rect.empty() || {
        &&& rect.fits()
        &&& rect.w * rect.h * 3 <= isize::MAX
    }
}

/// Where the next pixel of a crop goes.
proof fn next_pixel(w: int, i: int, j: int, n: int)
    requires
        0 <= i < w,
        0 <= j,
        n == j * w + i,
    ensures
        n % w == i,
        n / w == j,
        (3 * n) / 3 == n,
        (3 * n + 1) / 3 == n,
        (3 * n + 2) / 3 == n,
        (3 * n) % 3 == 0,
        (3 * n + 1) % 3 == 1,
        (3 * n + 2) % 3 == 2,
{
    vstd::arithmetic::div_mod::lemma_fundamental_div_mod_converse(n, w, j, i);
}

impl Shot {
    /// The crop of `rect`, as [`Shot::crop_in`] gives it.
    pub open spec fn cropped(self, order: ByteOrder, rect: Rect) -> Seq<u8> {
        rgb_rows(self.regions@, order, rect)
    }

    /// Whether [`Shot::crop`] can copy this rectangle out.
    pub fn can_crop(rect: Rect) -> (r: bool)
        ensures
            r == croppable(rect),
    {
        if rect.w <= 0 || rect.h <= 0 {
            return true;
        }
        let (w, h) = (rect.w as u64, rect.h as u64);
        assert(0 < w * h <= 0x7fff_ffff * 0x7fff_ffff) by (nonlinear_arith)
            requires
                0 < w <= 0x7fff_ffff,
                0 < h <= 0x7fff_ffff,
        ;
        let bytes: u64 = w * h;
        rect.has_edges() && bytes <= isize::MAX as u64 / 3
    }

    /// Copy a rectangle out as RGB rows, ready for [`Image::encode_png`], reading pixels in a
    /// given byte order.
    ///
    /// Clipped to nothing gives an empty image rather than an error: a caller asking for a
    /// zero-width selection has made a UI mistake, not a fatal one.
    pub fn crop_in(&self, order: ByteOrder, rect: Rect) -> (r: Image)
        requires
            croppable(rect),
        ensures
            r.width == geometry::max(0, rect.w as int),
            r.height == geometry::max(0, rect.h as int),
            r.rgb@ == self.cropped(order, rect),
    {
        let w: i32 = if rect.w > 0 { rect.w } else { 0 };
        let h: i32 = if rect.h > 0 { rect.h } else { 0 };
        let mut rgb: Vec<u8> = Vec::new();
        let ghost all = self.cropped(order, rect);
        if w == 0 || h == 0 {
            assert(w * h * 3 == 0) by (nonlinear_arith)
                requires
                    w == 0 || h == 0,
            ;
            assert(all == Seq::<u8>::empty());
            return Image { width: w as u32, height: h as u32, rgb };
        }
        let mut j: i32 = 0;
        while j < h
            invariant
                0 <= j <= h,
                0 < w == rect.w,
                0 < h == rect.h,
                rect.fits(),
                all == rgb_rows(self.regions@, order, rect),
                all.len() == w * h * 3,
                rgb@.len() == 3 * (j * w),
                rgb@ == all.take(3 * (j * w)),
            decreases h - j,
        {
            assert(j * w + w <= w * h) by (nonlinear_arith)
                requires
                    0 <= j < h,
                    0 < w,
            ;
            assert((j + 1) * w == j * w + w) by (nonlinear_arith);
            let mut i: i32 = 0;
            while i < w
                invariant
                    0 <= j < h,
                    0 <= i <= w,
                    0 < w == rect.w,
                    0 < h == rect.h,
                    rect.fits(),
                    j * w + w <= w * h,
                    all == rgb_rows(self.regions@, order, rect),
                    all.len() == w * h * 3,
                    rgb@.len() == 3 * (j * w + i),
                    rgb@ == all.take(3 * (j * w + i)),
                decreases w - i,
            {
                let pixel: u32 = self.pixel_in(order, rect.x + i, rect.y + j);
                // 0xAARRGGBB, alpha discarded -- see the module note.
                let red: u8 = ((pixel / 0x1_0000) % 0x100) as u8;
                let green: u8 = ((pixel / 0x100) % 0x100) as u8;
                let blue: u8 = (pixel % 0x100) as u8;
                rgb.push(red);
                rgb.push(green);
                rgb.push(blue);
                proof {
                    let n = j * w + i;
                    next_pixel(w as int, i as int, j as int, n);
                    assert(all[3 * n] == red);
                    assert(all[3 * n + 1] == green);
                    assert(all[3 * n + 2] == blue);
                    assert(rgb@ =~= all.take(3 * (n + 1)));
                }
                i += 1;
            }
            j += 1;
        }
        assert(3 * (j * w) == w * h * 3) by (nonlinear_arith)
            requires
                j == h,
        ;
        assert(all.take(all.len() as int) == all);
        Image { width: w as u32, height: h as u32, rgb }
    }

    /// Copy a rectangle out as RGB rows, reading pixels in the machine's own byte order.
    pub fn crop(&self, rect: Rect) -> (r: Image)
        requires
            croppable(rect),
        ensures
            r.width == geometry::max(0, rect.w as int),
            r.height == geometry::max(0, rect.h as int),
            exists|order: ByteOrder|
                order.is_native() && r.rgb@ == #[trigger] self.cropped(order, rect),
    {
        self.crop_in(ByteOrder::native(), rect)
    }

    /// Another copy of the frozen desktop.
    ///
    /// The overlay draws from its own copy on every pointer move, and the cropping afterwards
    /// needs the pixels too. A screen's worth is a few megabytes and this happens once.
    pub fn clone_ref(&self) -> (r: Shot)
        ensures
            same_picture(r.regions@, self.regions@),
    {
        let mut regions: Vec<Region> = Vec::new();
        let mut i: usize = 0;
        while i < self.regions.len()
            invariant
                i <= self.regions@.len(),
                same_picture(regions@, self.regions@.take(i as int)),
            decreases self.regions@.len() - i,
        {
            let region = &self.regions[i];
            let pixels = region.pixels.clone();
            assert(pixels@ == region.pixels@);
            regions.push(Region { rect: region.rect, pixels });
            i += 1;
        }
        assert(self.regions@.take(i as int) == self.regions@);
        Shot { regions }
    }
}

/// Whether two desktops hold the same monitors with the same pixels.
pub open spec fn same_picture(a: Seq<Region>, b: Seq<Region>) -> bool {
    &&& a.len() == b.len()
    &&& forall|i: int|
        #![trigger a[i]]
        #![trigger b[i]]
        0 <= i < a.len() ==> a[i].rect == b[i].rect && a[i].pixels@ == b[i].pixels@
}

/// A cropped rectangle as packed 8-bit RGB, which is what PNG wants.
pub struct Image {
    pub width: u32,
    pub height: u32,
    /// `width * height` pixels, three bytes each.
    pub rgb: Vec<u8>,
}

/// Which step of writing a PNG failed, and what the encoder said about it.
#[derive(Debug)]
pub enum PngError {
    Header(String),
    Data(String),
    Finish(String),
}

impl PngError {
    /// The step that failed, counted from zero, and what the encoder said.
    pub open spec fn report(self) -> (nat, Seq<char>) {
        match self {
            PngError::Header(why) => (0, why@),
            PngError::Data(why) => (1, why@),
            PngError::Finish(why) => (2, why@),
        }
    }

    /// What the user is told.
    pub fn message(self) -> (r: String)
        ensures
            r@ == png_message(self.report()),
    {
        match self {
            PngError::Header(why) => text::concat("could not write the PNG header: ", why.as_str()),
            PngError::Data(why) => text::concat("could not write the PNG: ", why.as_str()),
            PngError::Finish(why) => text::concat("could not finish the PNG: ", why.as_str()),
        }
    }
}

/// What the user is told when a step of writing a PNG failed.
pub open spec fn png_message(report: (nat, Seq<char>)) -> Seq<char> {
    if report.0 == 0 {
        "could not write the PNG header: "@ + report.1
    } else if report.0 == 1 {
        "could not write the PNG: "@ + report.1
    } else {
        "could not finish the PNG: "@ + report.1
    }
}

/// What the `png` crate makes of an 8-bit RGB image: the bytes of the file, or the step that
/// failed -- zero for the header, one for the pixels, two for the end -- and the error's text.
pub uninterp spec fn png_encoding(width: u32, height: u32, rgb: Seq<u8>) -> Result<
    Seq<u8>,
    (nat, Seq<char>),
>;

/// An encoder's answer, its contents taken by their views.
pub open spec fn encoding_of(r: Result<Vec<u8>, PngError>) -> Result<Seq<u8>, (nat, Seq<char>)> {
    match r {
        Ok(file) => Ok(file@),
        Err(why) => Err(why.report()),
    }
}

/// Whether `file` starts the way a PNG of 8-bit RGB pixels starts: the signature, then a header
/// chunk that gives the size, a depth of eight and the color type that has no alpha channel.
pub open spec fn starts_as_rgb_png(file: Seq<u8>, width: u32, height: u32) -> bool {
    &&& file.len() >= 33
    &&& file.take(8) == seq![137u8, 80, 78, 71, 13, 10, 26, 10]
    &&& file.subrange(8, 16) == seq![0u8, 0, 0, 13, 73, 72, 68, 82]
    &&& width == 0x100_0000 * file[16] + 0x1_0000 * file[17] + 0x100 * file[18] + file[19]
    &&& height == 0x100_0000 * file[20] + 0x1_0000 * file[21] + 0x100 * file[22] + file[23]
    &&& file[24] == 8
    &&& file[25] == 2
}

/// Whether the encoder can count the bytes of an image of this size, and those of one of its rows
/// with the byte that says how the row is filtered.
pub open spec fn encodable(width: int, height: int) -> bool {
    width * height * 3 <= usize::MAX && (height > 0 ==> width * 3 + 1 <= usize::MAX)
}

/// `png::Encoder::new` with the color type set to RGB and the depth to eight bits, then
/// `write_header`, `write_image_data` and `finish` on what it gives, into a vector.
///
/// The contract says that the outcome is a function of the size and the pixels; that a file that
/// was written starts with the PNG signature and the header chunk for that size, depth and color
/// type; that the header is not what fails when neither side is zero; that pixels which are not
/// three bytes for each of `width * height` are refused; and that pixels which are, of an image
/// neither of whose sides is zero, are written. Writing to a vector does not fail, and neither
/// does compressing: the compressor's only two errors are for a buffer of its own that is too
/// short, one for the packed code lengths, which has room for every code length there is, and one
/// for the bits of a block, which is sliced to more bytes than are counted just before.
///
/// How pixels are compressed, and that a decoder gives them back, is not stated. Neither the
/// length of the pixels nor one more than that of a row may overflow, both of which the encoder
/// computes without checking.
#[verifier::external_body]
fn encode_rgb8(width: u32, height: u32, rgb: &Vec<u8>) -> (r: Result<Vec<u8>, PngError>)
    requires
        encodable(width as int, height as int),
    ensures
        encoding_of(r) == png_encoding(width, height, rgb@),
        r matches Ok(file) ==> starts_as_rgb_png(file@, width, height),
        width > 0 && height > 0 ==> !(r matches Err(PngError::Header(_))),
        width > 0 && height > 0 && rgb@.len() != width * height * 3 ==> (r matches Err(
            PngError::Data(_),
        )),
        width > 0 && height > 0 && rgb@.len() == width * height * 3 ==> r is Ok,
{
    let mut out = Vec::new();
    let mut encoder = png::Encoder::new(&mut out, width, height);
    encoder.set_color(png::ColorType::Rgb);
    encoder.set_depth(png::BitDepth::Eight);
    let mut writer = encoder.write_header().map_err(|err| PngError::Header(err.to_string()))?;
    writer.write_image_data(rgb).map_err(|err| PngError::Data(err.to_string()))?;
    writer.finish().map_err(|err| PngError::Finish(err.to_string()))?;
    Ok(out)
}

/// What encoding an image comes to, given what the encoder makes of it.
pub open spec fn png_outcome(
    width: u32,
    height: u32,
    encoding: Result<Seq<u8>, (nat, Seq<char>)>,
) -> Result<Seq<u8>, Seq<char>> {
    if width == 0 || height == 0 {
        Err("the selection is empty"@)
    } else {
        match encoding {
            Ok(file) => Ok(file),
            Err(report) => Err(png_message(report)),
        }
    }
}

/// Whether a result is `outcome`, its contents taken by their views.
pub open spec fn png_is(r: Result<Vec<u8>, String>, outcome: Result<Seq<u8>, Seq<char>>) -> bool {
    match (r, outcome) {
        (Ok(file), Ok(bytes)) => file@ == bytes,
        (Err(why), Err(message)) => why@ == message,
        _ => false,
    }
}

impl Image {
    /// Whether [`Image::encode_png`] can count the bytes of this image.
    pub fn can_encode(&self) -> (r: bool)
        ensures
            r == encodable(self.width as int, self.height as int),
    {
        let (width, height): (u128, u128) = (self.width as u128, self.height as u128);
        assert(width * height <= 0xffff_ffff_0000_0000) by (nonlinear_arith)
            requires
                width <= 0xffff_ffff,
                height <= 0xffff_ffff,
        ;
        width * height * 3 <= usize::MAX as u128 && (self.height == 0 || width * 3 + 1
            <= usize::MAX as u128)
    }

    /// Encode as a PNG.
    ///
    /// In memory rather than to a path, because the same bytes go to a file *or* to the
    /// clipboard, and the clipboard owner is a child that must already hold them -- it cannot go
    /// back to the compositor for a frame after this process is gone.
    pub fn encode_png(&self) -> (r: Result<Vec<u8>, String>)
        requires
            encodable(self.width as int, self.height as int),
        ensures
            png_is(
                r,
                png_outcome(
                    self.width,
                    self.height,
                    png_encoding(self.width, self.height, self.rgb@),
                ),
            ),
            r matches Ok(file) ==> {
                &&& self.width > 0 && self.height > 0
                &&& self.rgb@.len() == self.width * self.height * 3
                &&& starts_as_rgb_png(file@, self.width, self.height)
            },
            r is Ok <==> self.width > 0 && self.height > 0 && self.rgb@.len() == self.width
                * self.height * 3,
    {
        if self.width == 0 || self.height == 0 {
            return Err("the selection is empty".to_string());
        }
        match encode_rgb8(self.width, self.height, &self.rgb) {
            Ok(file) => Ok(file),
            Err(why) => Err(why.message()),
        }
    }
}

/// The desktop is the smallest rectangle around its monitors: every monitor lies within it, and
/// each of its edges is an edge of some monitor.
pub proof fn the_desktop_is_the_bounding_box(regions: Seq<Region>)
    requires
        measurable(regions),
        regions.len() > 0,
    ensures
        desktop(regions).fits(),
        forall|i: int|
            0 <= i < regions.len() ==> (#[trigger] regions[i]).rect.within(desktop(regions)),
        exists|i: int|
            0 <= i < regions.len() && (#[trigger] regions[i]).rect.x == desktop(regions).x,
        exists|i: int|
            0 <= i < regions.len() && (#[trigger] regions[i]).rect.y == desktop(regions).y,
        exists|i: int|
            0 <= i < regions.len() && (#[trigger] regions[i]).rect.right_edge() == desktop(
                regions,
            ).right_edge(),
        exists|i: int|
            0 <= i < regions.len() && (#[trigger] regions[i]).rect.bottom_edge() == desktop(
                regions,
            ).bottom_edge(),
{
    box_is_made_of_edges(regions);
    box_is_tight(regions);
}

/// [`box_around`] is around every region, and each of its edges is one of theirs.
proof fn box_is_tight(regions: Seq<Region>)
    requires
        regions.len() > 0,
    ensures
        ({
            let (left, top, right, bottom) = box_around(regions);
            &&& forall|i: int|
                0 <= i < regions.len() ==> left <= (#[trigger] regions[i]).rect.x && top
                    <= regions[i].rect.y && regions[i].rect.right_edge() <= right
                    && regions[i].rect.bottom_edge() <= bottom
            &&& exists|i: int| 0 <= i < regions.len() && (#[trigger] regions[i]).rect.x == left
            &&& exists|i: int| 0 <= i < regions.len() && (#[trigger] regions[i]).rect.y == top
            &&& exists|i: int|
                0 <= i < regions.len() && (#[trigger] regions[i]).rect.right_edge() == right
            &&& exists|i: int|
                0 <= i < regions.len() && (#[trigger] regions[i]).rect.bottom_edge() == bottom
        }),
    decreases regions.len(),
{
    let last = regions.len() - 1;
    assert(regions[last] == regions.last());
    if regions.len() > 1 {
        let before = regions.drop_last();
        box_is_tight(before);
        assert forall|i: int| 0 <= i < before.len() implies before[i] == #[trigger] regions[i] by {}
        let (left, top, right, bottom) = box_around(before);
        let l = choose|i: int| 0 <= i < before.len() && (#[trigger] before[i]).rect.x == left;
        let t = choose|i: int| 0 <= i < before.len() && (#[trigger] before[i]).rect.y == top;
        let r = choose|i: int|
            0 <= i < before.len() && (#[trigger] before[i]).rect.right_edge() == right;
        let b = choose|i: int|
            0 <= i < before.len() && (#[trigger] before[i]).rect.bottom_edge() == bottom;
        assert(before[l] == regions[l] && before[t] == regions[t] && before[r] == regions[r]
            && before[b] == regions[b]);
    }
}

/// Where no monitor has a pixel, the desktop reads as black.
proof fn no_reading_is_no_monitor(regions: Seq<Region>, order: ByteOrder, px: int, py: int)
    requires
        forall|i: int|
            0 <= i < regions.len() ==> (#[trigger] regions[i]).reading(order, px, py) is None,
    ensures
        last_reading(regions, order, px, py) == NO_MONITOR,
    decreases regions.len(),
{
    if regions.len() > 0 {
        let before = regions.drop_last();
        assert forall|i: int| 0 <= i < before.len() implies (#[trigger] before[i]).reading(
            order,
            px,
            py,
        ) is None by {
            assert(before[i] == regions[i]);
        }
        assert(regions.last() == regions[regions.len() - 1]);
        no_reading_is_no_monitor(before, order, px, py);
    }
}

/// Where the monitor at `i` has a pixel and none after it has, the desktop reads as that pixel.
proof fn a_last_reading_is_the_last(
    regions: Seq<Region>,
    order: ByteOrder,
    px: int,
    py: int,
    i: int,
)
    requires
        0 <= i < regions.len(),
        regions[i].reading(order, px, py) is Some,
        forall|j: int|
            i < j < regions.len() ==> (#[trigger] regions[j]).reading(order, px, py) is None,
    ensures
        regions[i].reading(order, px, py) == Some(last_reading(regions, order, px, py)),
    decreases regions.len(),
{
    let last = regions.len() - 1;
    assert(regions.last() == regions[last]);
    if i < last {
        let before = regions.drop_last();
        assert(before[i] == regions[i]);
        assert forall|j: int| i < j < before.len() implies (#[trigger] before[j]).reading(
            order,
            px,
            py,
        ) is None by {
            assert(before[j] == regions[j]);
        }
        a_last_reading_is_the_last(before, order, px, py, i);
    }
}

/// A pixel is what the last monitor that has one there holds, and black where none has.
#[verifier::spinoff_prover]
pub proof fn the_last_monitor_wins(regions: Seq<Region>, order: ByteOrder, px: int, py: int)
    ensures
        (forall|i: int| 0 <= i < regions.len() ==> (#[trigger] regions[i]).reading(order, px, py)
            is None) ==> last_reading(regions, order, px, py) == NO_MONITOR,
        forall|i: int|
            0 <= i < regions.len() && (#[trigger] regions[i]).reading(order, px, py) is Some && (
            forall|j: int|
                i < j < regions.len() ==> (#[trigger] regions[j]).reading(order, px, py) is None)
                ==> regions[i].reading(order, px, py) == Some(
                last_reading(regions, order, px, py),
            ),
{
    if forall|i: int|
        0 <= i < regions.len() ==> (#[trigger] regions[i]).reading(order, px, py) is None {
        no_reading_is_no_monitor(regions, order, px, py);
    }
    assert forall|i: int|
        0 <= i < regions.len() && (#[trigger] regions[i]).reading(order, px, py) is Some && (
        forall|j: int|
            i < j < regions.len() ==> (#[trigger] regions[j]).reading(order, px, py)
                is None) implies regions[i].reading(order, px, py) == Some(
        last_reading(regions, order, px, py),
    ) by {
        a_last_reading_is_the_last(regions, order, px, py, i);
    }
}

/// Where no monitor covers the desktop, it reads as black.
pub proof fn a_gap_between_monitors_reads_as_black(
    regions: Seq<Region>,
    order: ByteOrder,
    px: int,
    py: int,
)
    requires
        forall|i: int| 0 <= i < regions.len() ==> !(#[trigger] regions[i]).rect.covers(px, py),
    ensures
        last_reading(regions, order, px, py) == NO_MONITOR,
        forall|which: int| 0 <= which < 3 ==> channel(NO_MONITOR, which) == 0,
{
    no_reading_is_no_monitor(regions, order, px, py);
}

/// A copy of the desktop reads the same everywhere.
pub proof fn a_copy_reads_the_same(
    a: Seq<Region>,
    b: Seq<Region>,
    order: ByteOrder,
    px: int,
    py: int,
)
    requires
        same_picture(a, b),
    ensures
        last_reading(a, order, px, py) == last_reading(b, order, px, py),
    decreases a.len(),
{
    if a.len() > 0 {
        assert(a[a.len() - 1] == a.last() && b[b.len() - 1] == b.last());
        assert(same_picture(a.drop_last(), b.drop_last()));
        a_copy_reads_the_same(a.drop_last(), b.drop_last(), order, px, py);
    }
}

/// A copy of the desktop crops the same.
pub proof fn a_copy_crops_the_same(a: Seq<Region>, b: Seq<Region>, order: ByteOrder, rect: Rect)
    requires
        same_picture(a, b),
    ensures
        rgb_rows(a, order, rect) == rgb_rows(b, order, rect),
{
    assert forall|px: int, py: int| #[trigger] last_reading(a, order, px, py) == last_reading(
        b,
        order,
        px,
        py,
    ) by {
        a_copy_reads_the_same(a, b, order, px, py);
    }
    assert(rgb_rows(a, order, rect) =~= rgb_rows(b, order, rect));
}

/// Where in a pixel's four bytes its alpha is.
pub open spec fn alpha_byte(order: ByteOrder) -> int {
    match order {
        ByteOrder::Little => 3,
        ByteOrder::Big => 0,
    }
}

/// Whether two desktops differ in nothing but the alpha bytes of their pixels.
pub open spec fn same_but_for_alpha(a: Seq<Region>, b: Seq<Region>, order: ByteOrder) -> bool {
    &&& a.len() == b.len()
    &&& forall|i: int|
        #![trigger a[i]]
        #![trigger b[i]]
        0 <= i < a.len() ==> {
            &&& a[i].rect == b[i].rect
            &&& a[i].pixels@.len() == b[i].pixels@.len()
            &&& forall|k: int|
                0 <= k < a[i].pixels@.len() && k % 4 != alpha_byte(order)
                    ==> #[trigger] a[i].pixels@[k] == b[i].pixels@[k]
        }
}

/// The three colors of a number made of four bytes are the low three of them.
proof fn low_bytes_are_the_colors(low: int, mid: int, high: int, alpha: int)
    requires
        0 <= low < 0x100,
        0 <= mid < 0x100,
        0 <= high < 0x100,
        0 <= alpha < 0x100,
    ensures
        ({
            let pixel = (low + 0x100 * mid + 0x1_0000 * high + 0x100_0000 * alpha) as u32;
            channel(pixel, 0) == high && channel(pixel, 1) == mid && channel(pixel, 2) == low
        }),
{
    let n = low + 0x100 * mid + 0x1_0000 * high + 0x100_0000 * alpha;
    let above = mid + 0x100 * high + 0x1_0000 * alpha;
    vstd::arithmetic::div_mod::lemma_fundamental_div_mod_converse(n, 0x100, above, low);
    vstd::arithmetic::div_mod::lemma_fundamental_div_mod_converse(
        above,
        0x100,
        high + 0x100 * alpha,
        mid,
    );
    vstd::arithmetic::div_mod::lemma_fundamental_div_mod_converse(
        n,
        0x1_0000,
        high + 0x100 * alpha,
        low + 0x100 * mid,
    );
    vstd::arithmetic::div_mod::lemma_fundamental_div_mod_converse(
        high + 0x100 * alpha,
        0x100,
        alpha,
        high,
    );
}

/// The colors of a pixel in memory, by where its bytes are: the alpha byte is none of them.
pub proof fn the_colors_of_a_pixel(order: ByteOrder, b0: u8, b1: u8, b2: u8, b3: u8)
    ensures
        order is Little ==> {
            let pixel = word(order, b0, b1, b2, b3);
            channel(pixel, 0) == b2 && channel(pixel, 1) == b1 && channel(pixel, 2) == b0
        },
        order is Big ==> {
            let pixel = word(order, b0, b1, b2, b3);
            channel(pixel, 0) == b1 && channel(pixel, 1) == b2 && channel(pixel, 2) == b3
        },
{
    low_bytes_are_the_colors(b0 as int, b1 as int, b2 as int, b3 as int);
    low_bytes_are_the_colors(b3 as int, b2 as int, b1 as int, b0 as int);
}

/// The alpha channel never reaches a crop: desktops that differ in nothing but alpha crop to the
/// same image.
pub proof fn a_crop_has_no_alpha(
    a: Seq<Region>,
    b: Seq<Region>,
    order: ByteOrder,
    rect: Rect,
)
    requires
        same_but_for_alpha(a, b, order),
    ensures
        rgb_rows(a, order, rect) == rgb_rows(b, order, rect),
{
    assert forall|px: int, py: int, which: int| channel(
        #[trigger] last_reading(a, order, px, py),
        which,
    ) == #[trigger] channel(last_reading(b, order, px, py), which) by {
        readings_differ_in_alpha_only(a, b, order, px, py, which);
    }
    assert(rgb_rows(a, order, rect) =~= rgb_rows(b, order, rect));
}

/// Pixel by pixel, the colors of such desktops are the same.
proof fn readings_differ_in_alpha_only(
    a: Seq<Region>,
    b: Seq<Region>,
    order: ByteOrder,
    px: int,
    py: int,
    which: int,
)
    requires
        same_but_for_alpha(a, b, order),
    ensures
        channel(last_reading(a, order, px, py), which) == channel(
            last_reading(b, order, px, py),
            which,
        ),
    decreases a.len(),
{
    if a.len() > 0 {
        let n = a.len() - 1;
        assert(a[n] == a.last() && b[n] == b.last());
        assert(same_but_for_alpha(a.drop_last(), b.drop_last(), order));
        readings_differ_in_alpha_only(a.drop_last(), b.drop_last(), order, px, py, which);
        if a[n].reading(order, px, py) is Some {
            let k = a[n].offset(px, py);
            let (p, q) = (a[n].pixels@, b[n].pixels@);
            assert(0 <= k) by (nonlinear_arith)
                requires
                    k == ((py - a[n].rect.y) * a[n].rect.w + (px - a[n].rect.x)) * 4,
                    a[n].rect.y <= py,
                    a[n].rect.x <= px,
                    0 <= a[n].rect.w,
            ;
            assert(k % 4 == 0 && (k + 1) % 4 == 1 && (k + 2) % 4 == 2 && (k + 3) % 4 == 3);
            assert(order is Big ==> p[k + 1] == q[k + 1] && p[k + 2] == q[k + 2] && p[k + 3] == q[k
                + 3]);
            assert(order is Little ==> p[k] == q[k] && p[k + 1] == q[k + 1] && p[k + 2] == q[k
                + 2]);
            the_colors_of_a_pixel(order, p[k], p[k + 1], p[k + 2], p[k + 3]);
            the_colors_of_a_pixel(order, q[k], q[k + 1], q[k + 2], q[k + 3]);
            let (x, y) = (
                word(order, p[k], p[k + 1], p[k + 2], p[k + 3]),
                word(order, q[k], q[k + 1], q[k + 2], q[k + 3]),
            );
            assert(channel(x, which) == if which == 0 {
                channel(x, 0)
            } else if which == 1 {
                channel(x, 1)
            } else {
                channel(x, 2)
            });
            assert(channel(y, which) == if which == 0 {
                channel(y, 0)
            } else if which == 1 {
                channel(y, 1)
            } else {
                channel(y, 2)
            });
        }
    }
}

/// A crop can span monitors: each of its pixels is the desktop's pixel at that place, whichever
/// monitor that is on.
pub proof fn a_crop_is_the_desktop_seen_through_a_window(
    regions: Seq<Region>,
    order: ByteOrder,
    rect: Rect,
    i: int,
    j: int,
    which: int,
)
    requires
        0 <= i < rect.w,
        0 <= j < rect.h,
        0 <= which < 3,
    ensures
        0 <= 3 * (j * rect.w + i) + which < rgb_rows(regions, order, rect).len(),
        rgb_rows(regions, order, rect)[3 * (j * rect.w + i) + which] == channel(
            last_reading(regions, order, rect.x + i, rect.y + j),
            which,
        ),
{
    let w = rect.w as int;
    next_pixel(w, i, j, j * w + i);
    assert(0 <= j * w && j * w + w <= w * rect.h) by (nonlinear_arith)
        requires
            0 <= j < rect.h,
            0 < w,
    ;
}

/// Where a pixel is among the bytes of its monitor: the pixel in column `i` of row `j` is the four
/// bytes after those of the `j` rows above it and of the `i` pixels before it. A pixel that is
/// past the bytes there are reads as nothing.
pub proof fn a_pixel_is_four_bytes_of_its_row(
    region: Region,
    order: ByteOrder,
    i: int,
    j: int,
)
    requires
        0 <= i < region.rect.w,
        0 <= j < region.rect.h,
    ensures
        ({
            let bytes = region.pixels@;
            let at = 4 * (j * region.rect.w + i);
            let read = region.reading(order, region.rect.x + i, region.rect.y + j);
            &&& 0 <= at
            &&& read is Some <==> at + 4 <= bytes.len()
            &&& read matches Some(pixel) ==> match order {
                ByteOrder::Little => pixel == bytes[at] + 0x100 * bytes[at + 1] + 0x1_0000
                    * bytes[at + 2] + 0x100_0000 * bytes[at + 3],
                ByteOrder::Big => pixel == bytes[at + 3] + 0x100 * bytes[at + 2] + 0x1_0000
                    * bytes[at + 1] + 0x100_0000 * bytes[at],
            }
        }),
{
    let w = region.rect.w as int;
    assert(0 <= 4 * (j * w + i)) by (nonlinear_arith)
        requires
            0 <= i,
            0 <= j,
            0 < w,
    ;
}

/// A monitor has no pixel outside of its columns and rows.
pub proof fn a_monitor_reads_nowhere_else(region: Region, order: ByteOrder, px: int, py: int)
    requires
        !(0 <= px - region.rect.x < region.rect.w && 0 <= py - region.rect.y < region.rect.h),
    ensures
        region.reading(order, px, py) is None,
{
}

/// The picture of a monitor is the monitor's own bytes. The pixel of a crop that falls on column
/// `i` and row `j` of monitor `n`, and on no monitor after it, is the red, green and blue byte of
/// the four that the monitor has for that pixel; which of the four those are is the byte order's.
#[verifier::spinoff_prover]
pub proof fn a_crop_is_made_of_the_monitors_bytes(
    regions: Seq<Region>,
    order: ByteOrder,
    rect: Rect,
    n: int,
    i: int,
    j: int,
)
    requires
        0 <= n < regions.len(),
        0 <= i < regions[n].rect.w,
        0 <= j < regions[n].rect.h,
        4 * (j * regions[n].rect.w + i) + 4 <= regions[n].pixels@.len(),
        0 <= regions[n].rect.x + i - rect.x < rect.w,
        0 <= regions[n].rect.y + j - rect.y < rect.h,
        forall|m: int|
            n < m < regions.len() ==> !(0 <= regions[n].rect.x + i - (
            #[trigger] regions[m]).rect.x < regions[m].rect.w && 0 <= regions[n].rect.y + j
                - regions[m].rect.y < regions[m].rect.h),
    ensures
        ({
            let rows = rgb_rows(regions, order, rect);
            let bytes = regions[n].pixels@;
            let at = 4 * (j * regions[n].rect.w + i);
            let to = 3 * ((regions[n].rect.y + j - rect.y) * rect.w + (regions[n].rect.x + i
                - rect.x));
            &&& 0 <= to && to + 3 <= rows.len()
            &&& match order {
                ByteOrder::Little => rows[to] == bytes[at + 2] && rows[to + 1] == bytes[at + 1]
                    && rows[to + 2] == bytes[at],
                ByteOrder::Big => rows[to] == bytes[at + 1] && rows[to + 1] == bytes[at + 2]
                    && rows[to + 2] == bytes[at + 3],
            }
        }),
{
    let region = regions[n];
    let (px, py) = (region.rect.x + i, region.rect.y + j);
    let (ci, cj) = (px - rect.x, py - rect.y);
    let at = 4 * (j * region.rect.w + i);
    let bytes = region.pixels@;
    a_pixel_is_four_bytes_of_its_row(region, order, i, j);
    assert forall|m: int| n < m < regions.len() implies (#[trigger] regions[m]).reading(
        order,
        px,
        py,
    ) is None by {
        a_monitor_reads_nowhere_else(regions[m], order, px, py);
    }
    a_last_reading_is_the_last(regions, order, px, py, n);
    the_colors_of_a_pixel(order, bytes[at], bytes[at + 1], bytes[at + 2], bytes[at + 3]);
    assert(region.reading(order, px, py) == Some(
        word(order, bytes[at], bytes[at + 1], bytes[at + 2], bytes[at + 3]),
    ));
    a_crop_is_the_desktop_seen_through_a_window(regions, order, rect, ci, cj, 0);
    a_crop_is_the_desktop_seen_through_a_window(regions, order, rect, ci, cj, 1);
    a_crop_is_the_desktop_seen_through_a_window(regions, order, rect, ci, cj, 2);
    assert(rect.x + ci == px && rect.y + cj == py);
}

/// The pixel of a crop that falls on no monitor is black.
pub proof fn a_crop_is_black_between_monitors(
    regions: Seq<Region>,
    order: ByteOrder,
    rect: Rect,
    i: int,
    j: int,
    which: int,
)
    requires
        0 <= i < rect.w,
        0 <= j < rect.h,
        0 <= which < 3,
        forall|m: int|
            0 <= m < regions.len() ==> !(0 <= rect.x + i - (#[trigger] regions[m]).rect.x
                < regions[m].rect.w && 0 <= rect.y + j - regions[m].rect.y < regions[m].rect.h),
    ensures
        rgb_rows(regions, order, rect)[3 * (j * rect.w + i) + which] == 0,
        last_reading(regions, order, rect.x + i, rect.y + j) == 0xff00_0000,
{
    let (px, py) = (rect.x + i, rect.y + j);
    assert forall|m: int| 0 <= m < regions.len() implies (#[trigger] regions[m]).reading(
        order,
        px,
        py,
    ) is None by {
        a_monitor_reads_nowhere_else(regions[m], order, px, py);
    }
    no_reading_is_no_monitor(regions, order, px, py);
    a_crop_is_the_desktop_seen_through_a_window(regions, order, rect, i, j, which);
}

/// A crop has three bytes for each of its pixels, and none where it has no pixel.
pub proof fn a_crop_has_three_bytes_a_pixel(regions: Seq<Region>, order: ByteOrder, rect: Rect)
    ensures
        rect.w > 0 && rect.h > 0 ==> rgb_rows(regions, order, rect).len() == 3 * (rect.w * rect.h),
        rect.w <= 0 || rect.h <= 0 ==> rgb_rows(regions, order, rect).len() == 0,
        croppable(rect) <==> rect.w <= 0 || rect.h <= 0 || (rect.x + rect.w <= 0x7fff_ffff && rect.y
            + rect.h <= 0x7fff_ffff && 3 * (rect.w * rect.h) <= isize::MAX),
{
    let (w, h) = (rect.w as int, rect.h as int);
    if w > 0 && h > 0 {
        assert(w * h * 3 == 3 * (w * h) && 0 <= w * h) by (nonlinear_arith)
            requires
                0 < w,
                0 < h,
        ;
    } else {
        let (a, b) = (geometry::max(0, w), geometry::max(0, h));
        assert(a * b == 0) by (nonlinear_arith)
            requires
                a == 0 || b == 0,
        ;
    }
}

/// A desktop can be measured if and only if every edge of a monitor is a number that an `i32` can
/// hold and no two edges of its monitors are further apart than that; it has no monitor, or it
/// starts at the first column and row of any monitor and reaches up to the last of any.
pub proof fn the_desktop_reaches_from_the_first_edge_to_the_last(regions: Seq<Region>)
    ensures
        measurable(regions) <==> {
            &&& forall|i: int|
                0 <= i < regions.len() ==> {
                    let rect = (#[trigger] regions[i]).rect;
                    &&& -0x8000_0000 <= rect.x + rect.w <= 0x7fff_ffff
                    &&& -0x8000_0000 <= rect.y + rect.h <= 0x7fff_ffff
                }
            &&& forall|i: int, j: int|
                0 <= i < regions.len() && 0 <= j < regions.len() ==> {
                    let (a, b) = ((#[trigger] regions[i]).rect, (#[trigger] regions[j]).rect);
                    &&& a.x + a.w - b.x <= 0x7fff_ffff
                    &&& a.y + a.h - b.y <= 0x7fff_ffff
                }
        },
        regions.len() == 0 ==> desktop(regions) == (Rect { x: 0, y: 0, w: 0, h: 0 }),
        measurable(regions) ==> forall|i: int|
            0 <= i < regions.len() ==> {
                let (rect, all) = ((#[trigger] regions[i]).rect, desktop(regions));
                &&& all.x <= rect.x && rect.x + rect.w <= all.x + all.w
                &&& all.y <= rect.y && rect.y + rect.h <= all.y + all.h
            },
        measurable(regions) && regions.len() > 0 ==> {
            let all = desktop(regions);
            &&& exists|i: int| 0 <= i < regions.len() && (#[trigger] regions[i]).rect.x == all.x
            &&& exists|i: int| 0 <= i < regions.len() && (#[trigger] regions[i]).rect.y == all.y
            &&& exists|i: int|
                0 <= i < regions.len() && (#[trigger] regions[i]).rect.x + regions[i].rect.w
                    == all.x + all.w
            &&& exists|i: int|
                0 <= i < regions.len() && (#[trigger] regions[i]).rect.y + regions[i].rect.h
                    == all.y + all.h
        },
{
    if regions.len() > 0 {
        box_is_tight(regions);
        let (left, top, right, bottom) = box_around(regions);
        let l = choose|i: int| 0 <= i < regions.len() && (#[trigger] regions[i]).rect.x == left;
        let t = choose|i: int| 0 <= i < regions.len() && (#[trigger] regions[i]).rect.y == top;
        let r = choose|i: int|
            0 <= i < regions.len() && (#[trigger] regions[i]).rect.right_edge() == right;
        let b = choose|i: int|
            0 <= i < regions.len() && (#[trigger] regions[i]).rect.bottom_edge() == bottom;
        assert(regions[l].rect.x == left && regions[t].rect.y == top);
        assert(regions[r].rect.x + regions[r].rect.w == right);
        assert(regions[b].rect.y + regions[b].rect.h == bottom);
        if measurable(regions) {
            the_desktop_is_the_bounding_box(regions);
            box_is_made_of_edges(regions);
            assert forall|i: int, j: int| 0 <= i < regions.len() && 0 <= j < regions.len() implies {
                let (a, b) = ((#[trigger] regions[i]).rect, (#[trigger] regions[j]).rect);
                &&& a.x + a.w - b.x <= 0x7fff_ffff
                &&& a.y + a.h - b.y <= 0x7fff_ffff
            } by {
                assert(left <= regions[j].rect.x && regions[i].rect.right_edge() <= right);
                assert(top <= regions[j].rect.y && regions[i].rect.bottom_edge() <= bottom);
            }
        }
    }
}

/// The bytes one and zero can only read as the number one or as two hundred and fifty-six: the
/// first is what they read as on a little-endian machine, and no other number is; the second is
/// what they read as on a big-endian one.
pub proof fn the_byte_orders_are_told_apart(probe: u16, order: ByteOrder)
    ensures
        ByteOrder::showing(probe) is Little <==> probe == 1,
        probed(probe) ==> probe == 1 || probe == 256,
        order.is_native() ==> (order is Little && probed(1)) || (order is Big && probed(256)),
        probed(1) ==> ByteOrder::Little.is_native(),
        probed(256) ==> ByteOrder::Big.is_native(),
{
    if order.is_native() {
        let shown = choose|shown: u16| #[trigger] probed(shown) && order == ByteOrder::showing(shown);
        assert(shown == 1 || shown == 256);
    }
    assert(ByteOrder::showing(1) == ByteOrder::Little);
    assert(ByteOrder::showing(256) == ByteOrder::Big);
}

/// A copy of the desktop has the same monitors in the same places, with the same bytes.
pub proof fn a_copy_has_the_same_monitors(a: Seq<Region>, b: Seq<Region>, i: int)
    requires
        same_picture(a, b),
        0 <= i < b.len(),
    ensures
        a.len() == b.len(),
        a[i].rect == b[i].rect,
        a[i].pixels@ == b[i].pixels@,
{
}

/// What the encoder wrote is handed on as it is, and what it said went wrong is said, after which
/// step that was in; an image without a pixel is refused before either.
pub proof fn an_encoding_is_handed_on(
    width: u32,
    height: u32,
    file: Seq<u8>,
    step: nat,
    why: Seq<char>,
)
    ensures
        width > 0 && height > 0 ==> {
            &&& png_outcome(width, height, Ok(file)) == Ok::<Seq<u8>, Seq<char>>(file)
            &&& png_outcome(width, height, Err((0, why))) == Err::<Seq<u8>, Seq<char>>(
                "could not write the PNG header: "@ + why,
            )
            &&& png_outcome(width, height, Err((1, why))) == Err::<Seq<u8>, Seq<char>>(
                "could not write the PNG: "@ + why,
            )
            &&& png_outcome(width, height, Err((2, why))) == Err::<Seq<u8>, Seq<char>>(
                "could not finish the PNG: "@ + why,
            )
        },
        width == 0 || height == 0 ==> png_outcome(width, height, Ok(file)) == Err::<
            Seq<u8>,
            Seq<char>,
        >("the selection is empty"@) && png_outcome(width, height, Err((step, why))) == Err::<
            Seq<u8>,
            Seq<char>,
        >("the selection is empty"@),
        encodable(width as int, height as int) <==> 3 * (width * height) <= usize::MAX && (height
            == 0 || 3 * width < usize::MAX),
{
    let (w, h) = (width as int, height as int);
    assert(w * h * 3 == 3 * (w * h)) by (nonlinear_arith);
}

/// A result is an outcome where both are the same file, or fail for the same reason.
pub proof fn a_result_is_its_outcome(
    r: Result<Vec<u8>, String>,
    outcome: Result<Seq<u8>, Seq<char>>,
    error: PngError,
)
    ensures
        png_is(r, outcome) <==> {
            ||| r matches Ok(file) && outcome == Ok::<Seq<u8>, Seq<char>>(file@)
            ||| r matches Err(why) && outcome == Err::<Seq<u8>, Seq<char>>(why@)
        },
        error matches PngError::Header(why) ==> error.report() == (0nat, why@),
        error matches PngError::Data(why) ==> error.report() == (1nat, why@),
        error matches PngError::Finish(why) ==> error.report() == (2nat, why@),
{
}

/// A file that starts as an RGB PNG has at least a signature and a header chunk: it begins with a
/// byte above those of ASCII, the letters `PNG` and the line ends of both kinds, and its header
/// gives the two sides with their high bytes first, eight bits a sample and no alpha channel. The
/// bytes of a file thus tell the size of its picture.
pub proof fn how_a_png_starts(file: Seq<u8>, width: u32, height: u32, w: u32, h: u32)
    requires
        starts_as_rgb_png(file, width, height),
    ensures
        file.len() >= 33,
        file[0] == 0x89 && file[1] == 0x50 && file[2] == 0x4e && file[3] == 0x47,
        file[4] == 0x0d && file[5] == 0x0a && file[6] == 0x1a && file[7] == 0x0a,
        file[8] == 0 && file[9] == 0 && file[10] == 0 && file[11] == 13,
        file[12] == 0x49 && file[13] == 0x48 && file[14] == 0x44 && file[15] == 0x52,
        width == ((file[16] * 256 + file[17]) * 256 + file[18]) * 256 + file[19],
        height == ((file[20] * 256 + file[21]) * 256 + file[22]) * 256 + file[23],
        file[24] == 8 && file[25] == 2,
        starts_as_rgb_png(file, w, h) <==> w == width && h == height,
{
    assert forall|i: int| 0 <= i < 8 implies file[i] == #[trigger] file.take(8)[i] by {}
    assert forall|i: int| 0 <= i < 8 implies file[8 + i] == #[trigger] file.subrange(8, 16)[i] by {}
    assert(file.take(8)[0] == 137 && file.take(8)[1] == 80 && file.take(8)[2] == 78);
    assert(file.take(8)[3] == 71 && file.take(8)[4] == 13 && file.take(8)[5] == 10);
    assert(file.take(8)[6] == 26 && file.take(8)[7] == 10);
    let header = file.subrange(8, 16);
    assert(header[0] == 0 && header[1] == 0 && header[2] == 0 && header[3] == 13);
    assert(header[4] == 73 && header[5] == 72 && header[6] == 68 && header[7] == 82);
}

} // verus!
