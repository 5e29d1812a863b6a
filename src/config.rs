use vstd::prelude::*;

use crate::error::MageError;

verus! {

/// The smallest window, in cells, for the resizable sizing modes.
pub const MIN_WINDOW_SIZE: (u32, u32) = (20, 20);

/// Defines the size of the window and how it and its cells change when the
/// window does.
#[derive(Clone, Copy, Debug, PartialEq, Eq, Structural)]
pub enum WindowSize {
    /// The cell size is fixed and the number of cells follows the window. The
    /// values are the window's width and height in pixels, each aligned down
    /// to a whole number of cells; a resize snaps to whole cells.
    ///
    /// For example, 320x240 pixels with cells of 8x8 pixels shows 40x30 cells.
    FixedCellSize(u32, u32),
    /// The number of cells is fixed: the values are the width and height of
    /// the window in cells. A resize snaps to multiples of the window's first
    /// size, so it rescales the grid but never reshapes it.
    FixedCellDimensions(u32, u32),
    /// The window cannot be resized. The values are its width and height in
    /// cells and the scale of each cell, 1 meaning no scaling; a scale of 0
    /// is not a valid configuration.
    FixedWindowSize(u32, u32, u32),
}

/// The sizes that a sizing mode gives a window, for one font.
#[derive(Clone, Copy, Debug, PartialEq, Eq)]
pub struct WindowSizeData {
    /// The size of the window in pixels inside the window's border.
    pub inner_size: (u32, u32),
    /// The size of the window in cells.
    pub cell_size: (u32, u32),
    /// Window snapping size: the window size in pixels is always a multiple of
    /// it. (0, 0) means the window cannot be resized.
    pub snap_size: (u32, u32),
    /// How many pixels wide and high each pixel of a glyph is drawn.
    pub scale: u32,
    /// The smallest size in pixels the window may take.
    pub min_size: (u32, u32),
}

pub open spec fn fits_u32(n: int) -> bool {
    0 <= n <= u32::MAX
}

/// `n` aligned down to a multiple of `step`.
pub open spec fn align_down(n: int, step: int) -> int {
    n / step * step
}

/// The product of two 32-bit values fits in 64 bits.
proof fn lemma_product_fits_u64(a: u32, b: u32)
    ensures
        a * b <= u64::MAX,
{
    assert(a * b <= u32::MAX * u32::MAX) by (nonlinear_arith)
        requires
            a <= u32::MAX,
            b <= u32::MAX,
    ;
}

impl WindowSize {
    /// The sizes this mode gives a window whose font has cells of `cw` x `ch`
    /// pixels, or `None` where one of them does not fit in 32 bits or the scale
    /// is zero.
    pub open spec fn spec_data(self, cw: u32, ch: u32) -> Option<WindowSizeData> {
        let mw = MIN_WINDOW_SIZE.0 * cw;
        let mh = MIN_WINDOW_SIZE.1 * ch;
        match self {
            WindowSize::FixedCellSize(pw, ph) => {
                let w = align_down(if pw >= mw { pw as int } else { mw }, cw as int);
                let h = align_down(if ph >= mh { ph as int } else { mh }, ch as int);
                if fits_u32(mw) && fits_u32(mh) {
                    Some(
                        WindowSizeData {
                            inner_size: (w as u32, h as u32),
                            cell_size: ((w / cw as int) as u32, (h / ch as int) as u32),
                            snap_size: (cw, ch),
                            scale: 1,
                            min_size: (mw as u32, mh as u32),
                        },
                    )
                } else {
                    None
                }
            },
            WindowSize::FixedCellDimensions(gw, gh) => {
                let w = gw * cw;
                let h = gh * ch;
                if fits_u32(w) && fits_u32(h) && fits_u32(mw) && fits_u32(mh) {
                    Some(
                        WindowSizeData {
                            inner_size: (w as u32, h as u32),
                            cell_size: (gw, gh),
                            snap_size: (w as u32, h as u32),
                            scale: 1,
                            min_size: (mw as u32, mh as u32),
                        },
                    )
                } else {
                    None
                }
            },
            WindowSize::FixedWindowSize(gw, gh, scale) => {
                let w = gw * cw * scale;
                let h = gh * ch * scale;
                if scale >= 1 && fits_u32(w) && fits_u32(h) {
                    Some(
                        WindowSizeData {
                            inner_size: (w as u32, h as u32),
                            cell_size: (gw, gh),
                            snap_size: (0, 0),
                            scale,
                            min_size: (w as u32, h as u32),
                        },
                    )
                } else {
                    None
                }
            },
        }
    }

    /// Works out the window's sizes for a font whose cells are
    /// `char_width` x `char_height` pixels.
    ///
    /// - `FixedCellSize`: the requested size, raised to the minimum of 20x20
    ///   cells, aligned down to whole cells; scale 1; snapping to one cell.
    /// - `FixedCellDimensions`: the cells times the cell size; scale 1;
    ///   snapping to that whole size.
    /// - `FixedWindowSize`: the cells times the cell size times the scale; not
    ///   resizable, so no snapping, and the minimum is that size.
    ///
    /// Returns `None` where a size overflows 32 bits or the scale is zero.
    pub fn data(&self, char_width: u32, char_height: u32) -> (r: Option<WindowSizeData>)
        requires
            char_width > 0,
            char_height > 0,
        ensures
            r == self.spec_data(char_width, char_height),
    {
        proof {
            lemma_product_fits_u64(MIN_WINDOW_SIZE.0, char_width);
            lemma_product_fits_u64(MIN_WINDOW_SIZE.1, char_height);
        }
        let mw: u64 = MIN_WINDOW_SIZE.0 as u64 * char_width as u64;
        let mh: u64 = MIN_WINDOW_SIZE.1 as u64 * char_height as u64;
        let max = u32::MAX as u64;
        match *self {
            WindowSize::FixedCellSize(pw, ph) => {
                if mw > max || mh > max {
                    return None;
                }
                let mw = mw as u32;
                let mh = mh as u32;
                let pw = if pw >= mw {
                    pw
                } else {
                    mw
                };
                let ph = if ph >= mh {
                    ph
                } else {
                    mh
                };
                let cells_w = pw / char_width;
                let cells_h = ph / char_height;
                proof {
                    vstd::arithmetic::div_mod::lemma_fundamental_div_mod(pw as int, char_width as int);
                    vstd::arithmetic::div_mod::lemma_mod_pos_bound(pw as int, char_width as int);
                    vstd::arithmetic::div_mod::lemma_fundamental_div_mod(ph as int, char_height as int);
                    vstd::arithmetic::div_mod::lemma_mod_pos_bound(ph as int, char_height as int);
                    vstd::arithmetic::mul::lemma_mul_is_commutative(char_width as int, cells_w as int);
                    vstd::arithmetic::mul::lemma_mul_is_commutative(char_height as int, cells_h as int);
                }
                let w = cells_w * char_width;
                let h = cells_h * char_height;
                proof {
                    vstd::arithmetic::div_mod::lemma_div_multiples_vanish(cells_w as int, char_width as int);
                    vstd::arithmetic::div_mod::lemma_div_multiples_vanish(cells_h as int, char_height as int);
                }
                Some(
                    WindowSizeData {
                        inner_size: (w, h),
                        cell_size: (cells_w, cells_h),
                        snap_size: (char_width, char_height),
                        scale: 1,
                        min_size: (mw, mh),
                    },
                )
            },
            WindowSize::FixedCellDimensions(gw, gh) => {
                proof {
                    lemma_product_fits_u64(gw, char_width);
                    lemma_product_fits_u64(gh, char_height);
                }
                let w: u64 = gw as u64 * char_width as u64;
                let h: u64 = gh as u64 * char_height as u64;
                if w > max || h > max || mw > max || mh > max {
                    return None;
                }
                Some(
                    WindowSizeData {
                        inner_size: (w as u32, h as u32),
                        cell_size: (gw, gh),
                        snap_size: (w as u32, h as u32),
                        scale: 1,
                        min_size: (mw as u32, mh as u32),
                    },
                )
            },
            WindowSize::FixedWindowSize(gw, gh, scale) => {
                if scale == 0 {
                    return None;
                }
                proof {
                    lemma_product_fits_u64(gw, char_width);
                    lemma_product_fits_u64(gh, char_height);
                }
                let cw: u64 = gw as u64 * char_width as u64;
                let ch: u64 = gh as u64 * char_height as u64;
                if cw > max || ch > max {
                    proof {
                        assert(cw * scale >= cw) by (nonlinear_arith)
                            requires
                                scale >= 1,
                                cw >= 0,
                        ;
                        assert(ch * scale >= ch) by (nonlinear_arith)
                            requires
                                scale >= 1,
                                ch >= 0,
                        ;
                    }
                    return None;
                }
                proof {
                    lemma_product_fits_u64(cw as u32, scale);
                    lemma_product_fits_u64(ch as u32, scale);
                }
                let w: u64 = cw * scale as u64;
                let h: u64 = ch * scale as u64;
                if w > max || h > max {
                    return None;
                }
                Some(
                    WindowSizeData {
                        inner_size: (w as u32, h as u32),
                        cell_size: (gw, gh),
                        snap_size: (0, 0),
                        scale,
                        min_size: (w as u32, h as u32),
                    },
                )
            },
        }
    }
}

/// The data of a font: a 16x16 grid of glyphs in one RGBA image.
#[derive(Clone, Debug)]
pub struct FontData {
    /// The pixels of the font image, row by row, red in the lowest 8 bits.
    pub data: Vec<u32>,
    /// The width of each character in pixels.
    pub char_width: u32,
    /// The height of each character in pixels.
    pub char_height: u32,
}

impl FontData {
    /// The image holds 16x16 glyphs of a positive size.
    pub open spec fn wf(&self) -> bool {
        &&& self.char_width > 0
        &&& self.char_height > 0
        &&& self.data@.len() == 256 * self.char_width * self.char_height
    }
}

/// The font to render with.
#[derive(Clone, Debug)]
pub enum Font {
    /// The built-in font.
    Default,
    /// A font supplied by the application.
    Custom(FontData),
}

/// The configuration that the engine runs with.
#[derive(Clone, Debug)]
pub struct Config {
    /// The title of the window.
    pub title: Option<String>,
    /// The size and resizing behaviour of the window.
    pub window_size: WindowSize,
    /// The font to render with.
    pub font: Font,
}

impl Default for Config {
    fn default() -> (r: Self)
        ensures
            r.title is None,
            r.window_size == WindowSize::FixedCellSize(800, 600),
            r.font is Default,
    {
        Self { title: None, window_size: WindowSize::FixedCellSize(800, 600), font: Font::Default }
    }
}

#[verifier::external_type_specification]
#[verifier::external_body]
pub struct ExImageError(::image::ImageError);

/// What a PNG file holds, as its width, height and 8-bit RGBA bytes row by
/// row, or `None` where it cannot be decoded.
pub uninterp spec fn decoded_rgba(data: Seq<u8>) -> Option<(u32, u32, Seq<u8>)>;

/// Relies on image::load_from_memory_with_format, which decodes a PNG file
/// from its bytes with the crate's built-in decoder (no registered hook is
/// consulted for a built-in format), and on DynamicImage::into_rgba8 with
/// ImageBuffer::into_raw, which give its pixels as 8-bit RGBA bytes.
#[verifier::external_body]
fn decode_rgba(data: &[u8]) -> (r: Result<(u32, u32, Vec<u8>), ::image::ImageError>)
    ensures
        match r {
            Ok((w, h, bytes)) => decoded_rgba(data@) == Some((w, h, bytes@)),
            Err(_) => decoded_rgba(data@) is None,
        },
{
    match ::image::load_from_memory_with_format(data, ::image::ImageFormat::Png) {
        Ok(decoded) => {
            let rgba = decoded.into_rgba8();
            let (w, h) = rgba.dimensions();
            Ok((w, h, rgba.into_raw()))
        },
        Err(e) => Err(e),
    }
}

/// The pixel made of four bytes, the first in the lowest 8 bits.
pub open spec fn pixel_of(b0: u8, b1: u8, b2: u8, b3: u8) -> u32 {
    (b0 + b1 * 0x100 + b2 * 0x10000 + b3 * 0x1000000) as u32
}

/// The pixels that RGBA bytes make, four bytes each.
pub open spec fn pixels_of(bytes: Seq<u8>) -> Seq<u32> {
    Seq::new(
        bytes.len() / 4,
        |i: int| pixel_of(bytes[4 * i], bytes[4 * i + 1], bytes[4 * i + 2], bytes[4 * i + 3]),
    )
}

/// Whether a decoded image of `w` x `h` pixels in `n` bytes can hold a font:
/// both sides a positive multiple of 16, four bytes per pixel.
pub open spec fn font_image_ok(w: u32, h: u32, n: int) -> bool {
    &&& w >= 16
    &&& h >= 16
    &&& w % 16 == 0
    &&& h % 16 == 0
    &&& n == 4 * w * h
}

/// Joins RGBA bytes into pixels, four bytes each.
fn pixels_from_rgba(bytes: &Vec<u8>) -> (r: Vec<u32>)
    ensures
        r@ == pixels_of(bytes@),
{
    let n = bytes.len() / 4;
    proof {
        vstd::arithmetic::div_mod::lemma_fundamental_div_mod(bytes@.len() as int, 4);
    }
    let mut out: Vec<u32> = Vec::with_capacity(n);
    let mut i: usize = 0;
    while i < n
        invariant
            n == bytes@.len() / 4,
            4 * n <= bytes@.len(),
            bytes@.len() <= usize::MAX,
            0 <= i <= n,
            out@.len() == i,
            forall|j: int| 0 <= j < i ==> #[trigger] out@[j] == pixels_of(bytes@)[j],
        decreases n - i,
    {
        let b0 = bytes[4 * i] as u32;
        let b1 = bytes[4 * i + 1] as u32;
        let b2 = bytes[4 * i + 2] as u32;
        let b3 = bytes[4 * i + 3] as u32;
        out.push(b0 + b1 * 0x100 + b2 * 0x10000 + b3 * 0x1000000);
        i += 1;
    }
    assert(out@ =~= pixels_of(bytes@));
    out
}

/// Loads a font from a PNG file holding a 16x16 grid of glyphs.
///
/// Fails with `BadFont` where the file cannot be decoded, and with
/// `InvalidFontImage` where the image's sides are not a positive multiple of
/// 16 pixels.
pub fn load_font_image(data: &[u8]) -> (r: Result<FontData, MageError>)
    ensures
        match decoded_rgba(data@) {
            None => r == Err::<FontData, MageError>(MageError::BadFont),
            Some((w, h, bytes)) => if font_image_ok(w, h, bytes.len() as int) {
                &&& r is Ok
                &&& r->Ok_0.wf()
                &&& r->Ok_0.char_width == w / 16
                &&& r->Ok_0.char_height == h / 16
                &&& r->Ok_0.data@ == pixels_of(bytes)
            } else {
                r == Err::<FontData, MageError>(MageError::InvalidFontImage)
            },
        },
{
    let (width, height, bytes) = match decode_rgba(data) {
        Ok(decoded) => decoded,
        Err(_) => {
            return Err(MageError::BadFont);
        },
    };
    let char_width = width / 16;
    let char_height = height / 16;
    if char_width == 0 || char_height == 0 || char_width * 16 != width || char_height * 16
        != height {
        return Err(MageError::InvalidFontImage);
    }
    let n = bytes.len();
    proof {
        lemma_product_fits_u64(width, height);
        assert(4 * width * height == 4 * (width * height)) by (nonlinear_arith);
        vstd::arithmetic::div_mod::lemma_fundamental_div_mod(n as int, 4);
    }
    if n % 4 != 0 || (n / 4) as u64 != width as u64 * height as u64 {
        return Err(MageError::InvalidFontImage);
    }
    let data = pixels_from_rgba(&bytes);
    proof {
        assert(256 * char_width * char_height == (16 * char_width) * (16 * char_height))
            by (nonlinear_arith);
        assert(width == 16 * char_width);
        assert(height == 16 * char_height);
        assert(data@.len() == width * height);
    }
    Ok(FontData { data, char_width, char_height })
}

/// What to do with a window size that the host proposes.
#[derive(Clone, Copy, Debug, PartialEq, Eq, Structural)]
pub enum ResizeAction {
    /// Leave the window as it is.
    Ignore,
    /// Take the size: it is already snapped.
    Accept(u32, u32),
    /// Ask the host for this snapped size instead; its own resize event
    /// follows.
    Request(u32, u32),
}

/// `p` snapped down to a positive multiple of `step`, or left as it is where
/// `step` is zero.
pub open spec fn snap_dim(p: int, step: int) -> int {
    if step == 0 {
        p
    } else if p < step {
        step
    } else {
        align_down(p, step)
    }
}

/// Snaps one side of a proposed size down to a positive multiple of `step`;
/// a zero `step` leaves it as it is.
pub fn snap_dimension(p: u32, step: u32) -> (r: u32)
    ensures
        r == snap_dim(p as int, step as int),
{
    if step == 0 {
        p
    } else if p < step {
        step
    } else {
        proof {
            vstd::arithmetic::div_mod::lemma_fundamental_div_mod(p as int, step as int);
            vstd::arithmetic::div_mod::lemma_mod_pos_bound(p as int, step as int);
            vstd::arithmetic::mul::lemma_mul_is_commutative(step as int, (p / step) as int);
        }
        p / step * step
    }
}

/// Decides, event by event, what becomes of the window sizes that the host
/// proposes.
#[derive(Clone, Copy, Debug, PartialEq, Eq)]
pub struct ResizeTracker {
    /// The snapping size of the window; (0, 0) means it cannot be resized.
    pub snap_size: (u32, u32),
    /// Whether the resize event that every new window gets has been seen.
    pub seen_first: bool,
}

impl ResizeTracker {
    /// The action for a proposed size once the first event has passed.
    pub open spec fn spec_action(snap_size: (u32, u32), w: u32, h: u32) -> ResizeAction {
        if snap_size == (0u32, 0u32) {
            ResizeAction::Ignore
        } else {
            let sw = snap_dim(w as int, snap_size.0 as int);
            let sh = snap_dim(h as int, snap_size.1 as int);
            if sw == w && sh == h {
                ResizeAction::Accept(w, h)
            } else {
                ResizeAction::Request(sw as u32, sh as u32)
            }
        }
    }

    /// A tracker for a new window that snaps to `snap_size`.
    pub fn new(snap_size: (u32, u32)) -> (r: Self)
        ensures
            r.snap_size == snap_size,
            !r.seen_first,
    {
        Self { snap_size, seen_first: false }
    }

    /// Decides what to do with a resize event of `w` x `h` pixels.
    ///
    /// The first event is the one that the host sends on creating the window,
    /// and is ignored. A window that cannot be resized ignores all of them.
    /// Otherwise a size that is already snapped is accepted, and any other is
    /// answered with a request for its snapped size.
    pub fn on_resized(&mut self, w: u32, h: u32) -> (r: ResizeAction)
        ensures
            final(self).snap_size == old(self).snap_size,
            final(self).seen_first,
            r == if !old(self).seen_first {
                ResizeAction::Ignore
            } else {
                Self::spec_action(old(self).snap_size, w, h)
            },
    {
        if !self.seen_first {
            self.seen_first = true;
            return ResizeAction::Ignore;
        }
        if self.snap_size.0 == 0 && self.snap_size.1 == 0 {
            return ResizeAction::Ignore;
        }
        let sw = snap_dimension(w, self.snap_size.0);
        let sh = snap_dimension(h, self.snap_size.1);
        if sw == w && sh == h {
            ResizeAction::Accept(w, h)
        } else {
            ResizeAction::Request(sw, sh)
        }
    }
}

/// Snapping a side that is already snapped leaves it as it is.
pub proof fn lemma_snap_dim_idempotent(p: u32, step: u32)
    ensures
        snap_dim(snap_dim(p as int, step as int), step as int) == snap_dim(p as int, step as int),
{
    if step > 0 && p >= step {
        let q = p as int / step as int;
        vstd::arithmetic::div_mod::lemma_fundamental_div_mod(p as int, step as int);
        vstd::arithmetic::div_mod::lemma_mod_pos_bound(p as int, step as int);
        assert(q >= 1) by (nonlinear_arith)
            requires
                p == step * q + p % step,
                p % step < step,
                p >= step,
                step > 0,
        ;
        assert(q * step >= step) by (nonlinear_arith)
            requires
                q >= 1,
                step > 0,
        ;
        vstd::arithmetic::div_mod::lemma_div_multiples_vanish(q, step as int);
        vstd::arithmetic::mul::lemma_mul_is_commutative(q, step as int);
    } else if step > 0 {
        vstd::arithmetic::div_mod::lemma_div_multiples_vanish(1, step as int);
    }
}

/// The size that a resize tracker asks the host for is accepted when the
/// host applies it.
pub proof fn lemma_requested_size_accepted(snap_size: (u32, u32), w: u32, h: u32)
    requires
        ResizeTracker::spec_action(snap_size, w, h) is Request,
    ensures
        ({
            let (sw, sh) = (
                ResizeTracker::spec_action(snap_size, w, h)->Request_0,
                ResizeTracker::spec_action(snap_size, w, h)->Request_1,
            );
            ResizeTracker::spec_action(snap_size, sw, sh) == ResizeAction::Accept(sw, sh)
        }),
{
    lemma_snap_dim_idempotent(w, snap_size.0);
    lemma_snap_dim_idempotent(h, snap_size.1);
    lemma_snap_dim_fits(w, snap_size.0);
    lemma_snap_dim_fits(h, snap_size.1);
}

/// A snapped side still fits in 32 bits.
proof fn lemma_snap_dim_fits(p: u32, step: u32)
    ensures
        0 <= snap_dim(p as int, step as int) <= u32::MAX,
{
    if step > 0 && p >= step {
        vstd::arithmetic::div_mod::lemma_fundamental_div_mod(p as int, step as int);
        vstd::arithmetic::div_mod::lemma_mod_pos_bound(p as int, step as int);
        vstd::arithmetic::div_mod::lemma_div_pos_is_pos(p as int, step as int);
        vstd::arithmetic::mul::lemma_mul_is_commutative(step as int, p as int / step as int);
        assert(0 <= (p as int / step as int) * step) by (nonlinear_arith)
            requires
                p as int / step as int >= 0,
                step > 0,
        ;
    }
}

} // verus!
