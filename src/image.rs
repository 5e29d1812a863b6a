use vstd::prelude::*;

use crate::plane::{
    fill_all, fill_area, filled, lemma_cell_in_grid, lemma_row_span,
};

verus! {

/// A point in 2D space.
#[derive(Clone, Copy, Debug, Default, PartialEq, Eq, Structural)]
pub struct Point {
    pub x: i32,
    pub y: i32,
}

impl Point {
    pub fn new(x: i32, y: i32) -> (r: Self)
        ensures
            r.x == x,
            r.y == y,
    {
        Self { x, y }
    }
}

/// A rectangle in 2D space: a signed origin and an unsigned extent.
#[derive(Clone, Copy, Debug, Default, PartialEq, Eq, Structural)]
pub struct Rect {
    pub x: i32,
    pub y: i32,
    pub width: u32,
    pub height: u32,
}

pub open spec fn min_int(a: int, b: int) -> int {
    if a <= b {
        a
    } else {
        b
    }
}

pub open spec fn max_int(a: int, b: int) -> int {
    if a >= b {
        a
    } else {
        b
    }
}

pub open spec fn abs_int(a: int) -> int {
    if a >= 0 {
        a
    } else {
        -a
    }
}

impl Rect {
    /// One past the rightmost column.
    pub open spec fn right(self) -> int {
        self.x + self.width
    }

    /// One past the bottom row.
    pub open spec fn bottom(self) -> int {
        self.y + self.height
    }

    /// Whether the cell at (px, py) lies inside the rectangle.
    pub open spec fn contains(self, px: int, py: int) -> bool {
        self.x <= px < self.right() && self.y <= py < self.bottom()
    }

    /// Whether every cell of `other` lies inside this rectangle (its edges
    /// included, so an empty rectangle on the border counts too).
    pub open spec fn contains_rect(self, other: Rect) -> bool {
        self.x <= other.x && other.right() <= self.right() && self.y <= other.y && other.bottom()
            <= self.bottom()
    }

    /// Whether the rectangle lies within a `width` x `height` area at the origin.
    pub open spec fn inside(self, width: int, height: int) -> bool {
        0 <= self.x && 0 <= self.y && self.right() <= width && self.bottom() <= height
    }

    pub open spec fn is_empty(self) -> bool {
        self.width == 0 || self.height == 0
    }

    /// The smallest rectangle holding both, as integers: (x, y, width, height).
    pub open spec fn union_extent(self, other: Rect) -> (int, int, int, int) {
        let x = min_int(self.x as int, other.x as int);
        let y = min_int(self.y as int, other.y as int);
        (
            x,
            y,
            max_int(self.right(), other.right()) - x,
            max_int(self.bottom(), other.bottom()) - y,
        )
    }

    /// Whether the union's extent fits the field types of a rectangle.
    pub open spec fn union_fits(self, other: Rect) -> bool {
        let (_, _, w, h) = self.union_extent(other);
        w <= u32::MAX && h <= u32::MAX
    }

    pub open spec fn spec_union(self, other: Rect) -> Rect {
        let (x, y, w, h) = self.union_extent(other);
        Rect { x: x as i32, y: y as i32, width: w as u32, height: h as u32 }
    }

    /// The overlap of two rectangles; an extent that would be negative, when
    /// they are disjoint, is taken as zero.
    pub open spec fn spec_intersect(self, other: Rect) -> Rect {
        let x = max_int(self.x as int, other.x as int);
        let y = max_int(self.y as int, other.y as int);
        let w = min_int(self.right(), other.right()) - x;
        let h = min_int(self.bottom(), other.bottom()) - y;
        Rect {
            x: x as i32,
            y: y as i32,
            width: if w > 0 {
                w as u32
            } else {
                0
            },
            height: if h > 0 {
                h as u32
            } else {
                0
            },
        }
    }

    /// The part of the rectangle inside a `width` x `height` area at the origin,
    /// and how far its top-left corner moved from the rectangle's own.
    pub open spec fn spec_clip_within(self, width: u32, height: u32) -> (Rect, Point) {
        (
            self.spec_intersect(Rect { x: 0, y: 0, width, height }),
            Point { x: (-min_int(self.x as int, 0)) as i32, y: (-min_int(self.y as int, 0)) as i32 },
        )
    }

    /// Creates a new rectangle with the given position and dimensions.
    pub fn new(x: i32, y: i32, width: u32, height: u32) -> (r: Self)
        ensures
            r == (Rect { x, y, width, height }),
    {
        Self { x, y, width, height }
    }

    /// Creates the smallest rectangle that contains both points.
    ///
    /// The points may come in any order. Equal points give a zero width and
    /// height; points on one vertical or horizontal line give a zero width or
    /// height.
    pub fn from_points(p1: Point, p2: Point) -> (r: Self)
        ensures
            r.x == min_int(p1.x as int, p2.x as int),
            r.y == min_int(p1.y as int, p2.y as int),
            r.width == abs_int(p1.x - p2.x),
            r.height == abs_int(p1.y - p2.y),
    {
        let x = if p1.x <= p2.x {
            p1.x
        } else {
            p2.x
        };
        let y = if p1.y <= p2.y {
            p1.y
        } else {
            p2.y
        };
        let dx: i64 = p1.x as i64 - p2.x as i64;
        let dy: i64 = p1.y as i64 - p2.y as i64;
        let width: u32 = if dx >= 0 {
            dx as u32
        } else {
            (-dx) as u32
        };
        let height: u32 = if dy >= 0 {
            dy as u32
        } else {
            (-dy) as u32
        };
        Self { x, y, width, height }
    }

    /// Creates a new rectangle from its top-left corner and its size.
    pub fn from_point_and_size(p: Point, width: u32, height: u32) -> (r: Self)
        ensures
            r == (Rect { x: p.x, y: p.y, width, height }),
    {
        Self { x: p.x, y: p.y, width, height }
    }

    /// Returns the smallest rectangle that contains both rectangles.
    pub fn union(&self, other: Self) -> (r: Self)
        requires
            self.union_fits(other),
        ensures
            r == self.spec_union(other),
    {
        let x = if self.x <= other.x {
            self.x
        } else {
            other.x
        };
        let y = if self.y <= other.y {
            self.y
        } else {
            other.y
        };
        let r1: i64 = self.x as i64 + self.width as i64;
        let r2: i64 = other.x as i64 + other.width as i64;
        let b1: i64 = self.y as i64 + self.height as i64;
        let b2: i64 = other.y as i64 + other.height as i64;
        let right = if r1 >= r2 {
            r1
        } else {
            r2
        };
        let bottom = if b1 >= b2 {
            b1
        } else {
            b2
        };
        Self { x, y, width: (right - x as i64) as u32, height: (bottom - y as i64) as u32 }
    }

    /// Returns the largest rectangle contained within both rectangles. Where
    /// they do not overlap, the width or height (or both) is zero.
    pub fn intersect(&self, other: Self) -> (r: Self)
        ensures
            r == self.spec_intersect(other),
    {
        let x = if self.x >= other.x {
            self.x
        } else {
            other.x
        };
        let y = if self.y >= other.y {
            self.y
        } else {
            other.y
        };
        let r1: i64 = self.x as i64 + self.width as i64;
        let r2: i64 = other.x as i64 + other.width as i64;
        let b1: i64 = self.y as i64 + self.height as i64;
        let b2: i64 = other.y as i64 + other.height as i64;
        let right = if r1 <= r2 {
            r1
        } else {
            r2
        };
        let bottom = if b1 <= b2 {
            b1
        } else {
            b2
        };
        let w: i64 = right - x as i64;
        let h: i64 = bottom - y as i64;
        Self {
            x,
            y,
            width: if w > 0 {
                w as u32
            } else {
                0
            },
            height: if h > 0 {
                h as u32
            } else {
                0
            },
        }
    }

    /// Clips this rectangle to a `width` x `height` area at the origin.
    ///
    /// Also returns the offset of the clipped rectangle's top-left corner
    /// within this rectangle, which tells a caller how many leading columns
    /// and rows were cut away.
    pub fn clip_within(&self, width: u32, height: u32) -> (r: (Self, Point))
        requires
            self.x > i32::MIN,
            self.y > i32::MIN,
        ensures
            r == self.spec_clip_within(width, height),
    {
        let ox = if self.x < 0 {
            -self.x
        } else {
            0
        };
        let oy = if self.y < 0 {
            -self.y
        } else {
            0
        };
        (self.intersect(Rect::new(0, 0, width, height)), Point::new(ox, oy))
    }
}


/// The glyph index a character is drawn with: its code, cut to 8 bits.
pub open spec fn glyph_of(c: char) -> u32 {
    (c as u32) % 256
}

/// A single character to render with colour information.
#[derive(Clone, Copy, Debug)]
pub struct Char {
    pub ch: u32,
    pub ink: u32,
    pub paper: u32,
}

impl Char {
    /// Creates a character from an 8-bit glyph index and its ink and paper
    /// colours.
    pub fn new(ch: u8, ink: u32, paper: u32) -> (r: Self)
        ensures
            r.ch == ch as u32,
            r.ink == ink,
            r.paper == paper,
    {
        Self { ch: ch as u32, ink, paper }
    }

    /// Creates a character from a 32-bit glyph value and its ink and paper
    /// colours.
    pub fn new_u32(ch: u32, ink: u32, paper: u32) -> (r: Self)
        ensures
            r.ch == ch,
            r.ink == ink,
            r.paper == paper,
    {
        Self { ch, ink, paper }
    }

    /// Creates a character from a Rust `char`, whose code is cut to 8 bits.
    pub fn new_char(ch: char, ink: u32, paper: u32) -> (r: Self)
        ensures
            r.ch == glyph_of(ch),
            r.ink == ink,
            r.paper == paper,
    {
        let char_byte = ((ch as u32) % 256) as u8;
        Self::new(char_byte, ink, paper)
    }
}


/// The characters of a string, in order.
fn chars_of(text: &str) -> (r: Vec<char>)
    ensures
        r@ == text@,
{
    broadcast use vstd::string::axiom_spec_iter;

    let mut out: Vec<char> = Vec::new();
    for c in it: text.chars()
        invariant
            out@ == it.seq().take(it.index() as int),
    {
        out.push(c);
    }
    assert(out@ =~= text@);
    out
}


/// A rectangular collection of chars to render as sprites or screens: three
/// row-major planes of `width * height` cells each.
#[derive(Debug)]
pub struct Image {
    /// The width of the image in chars.
    pub width: u32,
    /// The height of the image in chars.
    pub height: u32,
    /// The foreground colour of each char in the image.
    pub fore_image: Vec<u32>,
    /// The background colour of each char in the image.
    pub back_image: Vec<u32>,
    /// The char to render at each position in the image.
    pub text_image: Vec<u32>,
}

/// The row-major index of cell (x, y) in a `width` x `height` grid, if the
/// cell lies on it.
pub open spec fn grid_index(width: int, height: int, x: int, y: int) -> Option<int> {
    if 0 <= x < width && 0 <= y < height {
        Some(y * width + x)
    } else {
        None
    }
}

/// A one-row rectangle at `p`, `n` cells wide.
pub open spec fn string_area(p: Point, n: int) -> Rect {
    Rect { x: p.x, y: p.y, width: n as u32, height: 1 }
}

/// `old`, a plane `w` cells wide, with `chars` written as glyphs along row
/// `p.y` from column `p.x`, wherever they fall on the plane.
pub open spec fn written_text(old: Seq<u32>, w: int, p: Point, chars: Seq<char>) -> Seq<u32> {
    Seq::new(
        old.len(),
        |i: int|
            if i / w == p.y && p.x <= i % w < p.x + chars.len() {
                glyph_of(chars[i % w - p.x])
            } else {
                old[i]
            },
    )
}

impl Image {
    /// All three planes hold one cell for each position of the image.
    pub open spec fn wf(&self) -> bool {
        &&& self.fore_image@.len() == self.width * self.height
        &&& self.back_image@.len() == self.width * self.height
        &&& self.text_image@.len() == self.width * self.height
    }

    pub open spec fn spec_rect(&self) -> Rect {
        Rect { x: 0, y: 0, width: self.width, height: self.height }
    }

    /// Creates a new image with the given dimensions, every cell zero.
    pub fn new(width: u32, height: u32) -> (r: Self)
        requires
            width * height <= usize::MAX,
        ensures
            r.wf(),
            r.width == width,
            r.height == height,
            r.fore_image@ == Seq::new((width * height) as nat, |i: int| 0u32),
            r.back_image@ == Seq::new((width * height) as nat, |i: int| 0u32),
            r.text_image@ == Seq::new((width * height) as nat, |i: int| 0u32),
    {
        let size = width as usize * height as usize;
        let fore_image: Vec<u32> = vec![0; size];
        let back_image: Vec<u32> = vec![0; size];
        let text_image: Vec<u32> = vec![0; size];
        assert(fore_image@ =~= Seq::new((width * height) as nat, |i: int| 0u32));
        assert(back_image@ =~= Seq::new((width * height) as nat, |i: int| 0u32));
        assert(text_image@ =~= Seq::new((width * height) as nat, |i: int| 0u32));
        Self { width, height, fore_image, back_image, text_image }
    }

    /// Returns the index of the char at the given point, or `None` where the
    /// point lies outside the image.
    pub fn point_to_index(&self, p: Point) -> (r: Option<usize>)
        requires
            self.wf(),
        ensures
            r matches Some(i) ==> grid_index(self.width as int, self.height as int, p.x as int, p.y as int) == Some(i as int),
            r is None ==> grid_index(self.width as int, self.height as int, p.x as int, p.y as int) is None,
    {
        self.coords_to_index(p.x, p.y)
    }

    /// Returns the index of the char at (x, y), or `None` where the
    /// coordinates lie outside the image.
    pub fn coords_to_index(&self, x: i32, y: i32) -> (r: Option<usize>)
        requires
            self.wf(),
        ensures
            r matches Some(i) ==> grid_index(self.width as int, self.height as int, x as int, y as int) == Some(i as int),
            r is None ==> grid_index(self.width as int, self.height as int, x as int, y as int) is None,
    {
        if x < 0 || y < 0 {
            None
        } else {
            let xu = x as u32;
            let yu = y as u32;
            if xu < self.width && yu < self.height {
                let _ = self.fore_image.len();
                assert(yu * self.width + xu < self.width * self.height) by (nonlinear_arith)
                    requires
                        xu < self.width,
                        yu < self.height,
                ;
                Some(yu as usize * self.width as usize + xu as usize)
            } else {
                None
            }
        }
    }

    /// Sets every foreground cell to `ink`, every background cell to `paper`
    /// and every glyph to zero.
    pub fn clear(&mut self, ink: u32, paper: u32)
        requires
            old(self).wf(),
        ensures
            final(self).wf(),
            final(self).width == old(self).width,
            final(self).height == old(self).height,
            final(self).fore_image@ == Seq::new(old(self).fore_image@.len(), |i: int| ink),
            final(self).back_image@ == Seq::new(old(self).back_image@.len(), |i: int| paper),
            final(self).text_image@ == Seq::new(old(self).text_image@.len(), |i: int| 0u32),
    {
        fill_all(self.fore_image.as_mut_slice(), ink);
        fill_all(self.back_image.as_mut_slice(), paper);
        fill_all(self.text_image.as_mut_slice(), 0);
    }

    /// Draws a character at the given point; a point outside the image draws
    /// nothing.
    pub fn draw_char(&mut self, p: Point, ch: Char)
        requires
            old(self).wf(),
        ensures
            final(self).wf(),
            final(self).width == old(self).width,
            final(self).height == old(self).height,
            ({
                let w = old(self).width as int;
                let h = old(self).height as int;
                match grid_index(w, h, p.x as int, p.y as int) {
                    Some(i) => {
                        &&& final(self).fore_image@ == old(self).fore_image@.update(i, ch.ink)
                        &&& final(self).back_image@ == old(self).back_image@.update(i, ch.paper)
                        &&& final(self).text_image@ == old(self).text_image@.update(i, ch.ch)
                    },
                    None => {
                        &&& final(self).fore_image@ == old(self).fore_image@
                        &&& final(self).back_image@ == old(self).back_image@
                        &&& final(self).text_image@ == old(self).text_image@
                    },
                }
            }),
    {
        if let Some(index) = self.point_to_index(p) {
            assert(index < self.width * self.height) by (nonlinear_arith)
                requires
                    index == p.y * self.width + p.x,
                    0 <= p.x < self.width,
                    0 <= p.y < self.height,
            ;
            self.fore_image.set(index, ch.ink);
            self.back_image.set(index, ch.paper);
            self.text_image.set(index, ch.ch);
        }
    }

    /// Draws a string along one row from the given point, one cell per
    /// character, clipped to the image: only the characters that fall on the
    /// image are written, and a row outside it gets nothing.
    pub fn draw_string(&mut self, p: Point, text: &str, ink: u32, paper: u32)
        requires
            old(self).wf(),
            text@.len() <= i32::MAX,
        ensures
            final(self).wf(),
            final(self).width == old(self).width,
            final(self).height == old(self).height,
            final(self).fore_image@ == filled(
                old(self).fore_image@,
                old(self).width as int,
                string_area(p, text@.len() as int),
                ink,
            ),
            final(self).back_image@ == filled(
                old(self).back_image@,
                old(self).width as int,
                string_area(p, text@.len() as int),
                paper,
            ),
            final(self).text_image@ == written_text(
                old(self).text_image@,
                old(self).width as int,
                p,
                text@,
            ),
    {
        let chars = chars_of(text);
        let n = chars.len();
        let ghost w = self.width as int;
        let ghost h = self.height as int;
        let ghost fore0 = self.fore_image@;
        let ghost back0 = self.back_image@;
        let ghost text0 = self.text_image@;
        let ghost len = fore0.len();
        if p.x == i32::MIN || p.y < 0 {
            // No cell of the string lies on the image.
            proof {
                assert forall|i: int|
                    #![trigger self.text_image@[i]]
                    #![trigger self.fore_image@[i]]
                    #![trigger self.back_image@[i]]
                    0 <= i < len implies !string_area(p, n as int).contains(i % w, i / w) && !(i / w
                        == p.y && p.x <= i % w < p.x + n) by {
                    lemma_cell_in_grid(i, w, h);
                }
                assert(self.fore_image@ =~= filled(fore0, w, string_area(p, n as int), ink));
                assert(self.back_image@ =~= filled(back0, w, string_area(p, n as int), paper));
                assert(self.text_image@ =~= written_text(text0, w, p, text@));
            }
            return;
        }
        let (text_rect, str_offset) = Rect::from_point_and_size(p, n as u32, 1).clip_within(
            self.width,
            self.height,
        );
        if str_offset.y == 0 {
            if let Some(i) = self.coords_to_index(text_rect.x, text_rect.y) {
                let tw = text_rect.width as usize;
                let first = str_offset.x as usize;
                let _ = self.fore_image.len();
                proof {
                    vstd::arithmetic::mul::lemma_mul_is_commutative(text_rect.y as int, w);
                    if w > 0 {
                        assert(text_rect.y * w + text_rect.x + tw <= w * h) by (nonlinear_arith)
                            requires
                                0 <= text_rect.y < h,
                                0 <= text_rect.x,
                                text_rect.x + tw <= w,
                        ;
                    }
                }
                let mut c: usize = 0;
                while c < tw
                    invariant
                        self.wf(),
                        self.width == w,
                        self.height == h,
                        self.fore_image@.len() == len,
                        len == w * h,
                        len <= usize::MAX,
                        i + tw <= len,
                        tw > 0 ==> first + tw <= n,
                        n == chars@.len(),
                        0 <= c <= tw,
                        forall|j: int|
                            0 <= j < len ==> #[trigger] self.fore_image@[j] == if i <= j < i + c {
                                ink
                            } else {
                                fore0[j]
                            },
                        forall|j: int|
                            0 <= j < len ==> #[trigger] self.back_image@[j] == if i <= j < i + c {
                                paper
                            } else {
                                back0[j]
                            },
                        forall|j: int|
                            0 <= j < len ==> #[trigger] self.text_image@[j] == if i <= j < i + c {
                                glyph_of(chars@[first + (j - i)])
                            } else {
                                text0[j]
                            },
                    decreases tw - c,
                {
                    assert(first + c < n);
                    let ch = chars[first + c];
                    self.fore_image.set(i + c, ink);
                    self.back_image.set(i + c, paper);
                    self.text_image.set(i + c, (ch as u32) % 256);
                    c += 1;
                }
                proof {
                    assert forall|j: int|
                        #![trigger self.text_image@[j]]
                        #![trigger self.fore_image@[j]]
                        #![trigger self.back_image@[j]]
                        0 <= j < len implies self.text_image@[j]
                        == written_text(text0, w, p, text@)[j] && self.fore_image@[j] == filled(
                        fore0,
                        w,
                        string_area(p, n as int),
                        ink,
                    )[j] && self.back_image@[j] == filled(
                        back0,
                        w,
                        string_area(p, n as int),
                        paper,
                    )[j] by {
                        lemma_cell_in_grid(j, w, h);
                        lemma_row_span(j, w, text_rect.y as int, text_rect.x as int, tw as int);
                        assert(text_rect.y == p.y);
                        assert(i == text_rect.y * w + text_rect.x);
                        assert(text_rect.x == max_int(p.x as int, 0));
                        assert(first == text_rect.x - p.x);
                        assert(tw > 0 ==> text_rect.x + tw == min_int(p.x + n, w));
                        assert(tw == 0 ==> min_int(p.x + n, w) <= text_rect.x);
                    }
                    assert(self.fore_image@ =~= filled(fore0, w, string_area(p, n as int), ink));
                    assert(self.back_image@ =~= filled(back0, w, string_area(p, n as int), paper));
                    assert(self.text_image@ =~= written_text(text0, w, p, text@));
                }
                return;
            }
        }
        proof {
            assert forall|i: int|
                #![trigger self.text_image@[i]]
                #![trigger self.fore_image@[i]]
                #![trigger self.back_image@[i]]
                0 <= i < len implies !string_area(p, n as int).contains(i % w, i / w) && !(i / w
                    == p.y && p.x <= i % w < p.x + n) by {
                lemma_cell_in_grid(i, w, h);
            }
            assert(self.fore_image@ =~= filled(fore0, w, string_area(p, n as int), ink));
            assert(self.back_image@ =~= filled(back0, w, string_area(p, n as int), paper));
            assert(self.text_image@ =~= written_text(text0, w, p, text@));
        }
    }

    /// Fills a rectangle with the given character, clipped to the image.
    pub fn draw_filled_rect(&mut self, rect: Rect, ch: Char)
        requires
            old(self).wf(),
        ensures
            final(self).wf(),
            final(self).width == old(self).width,
            final(self).height == old(self).height,
            final(self).fore_image@ == filled(old(self).fore_image@, old(self).width as int, rect, ch.ink),
            final(self).back_image@ == filled(old(self).back_image@, old(self).width as int, rect, ch.paper),
            final(self).text_image@ == filled(old(self).text_image@, old(self).width as int, rect, ch.ch),
    {
        let ghost w = self.width as int;
        let ghost h = self.height as int;
        let ghost fore0 = self.fore_image@;
        let ghost back0 = self.back_image@;
        let ghost text0 = self.text_image@;
        let clipped = rect.intersect(self.rect());
        if clipped.width > 0 && clipped.height > 0 {
            fill_area(self.fore_image.as_mut_slice(), self.width, self.height, clipped, ch.ink);
            fill_area(self.back_image.as_mut_slice(), self.width, self.height, clipped, ch.paper);
            fill_area(self.text_image.as_mut_slice(), self.width, self.height, clipped, ch.ch);
        }
        proof {
            assert forall|i: int| 0 <= i < fore0.len() implies clipped.contains(i % w, i / w)
                == #[trigger] rect.contains(i % w, i / w) by {
                lemma_cell_in_grid(i, w, h);
            }
            assert(self.fore_image@ =~= filled(fore0, w, rect, ch.ink));
            assert(self.back_image@ =~= filled(back0, w, rect, ch.paper));
            assert(self.text_image@ =~= filled(text0, w, rect, ch.ch));
        }
    }

    /// The bounds of the image: a rectangle at the origin of its size.
    pub fn rect(&self) -> (r: Rect)
        ensures
            r == self.spec_rect(),
    {
        Rect::from_point_and_size(Point::new(0, 0), self.width, self.height)
    }
}


/// Intersection does not depend on the order of its arguments.
pub proof fn lemma_intersect_commutes(a: Rect, b: Rect)
    ensures
        a.spec_intersect(b) == b.spec_intersect(a),
{
}

/// The union of two rectangles contains both of them.
pub proof fn lemma_union_contains_both(a: Rect, b: Rect)
    requires
        a.union_fits(b),
    ensures
        a.spec_union(b).contains_rect(a),
        a.spec_union(b).contains_rect(b),
{
}

/// Clipping a rectangle that already lies within the bounds leaves it as it
/// is, with no offset.
pub proof fn lemma_clip_within_inside(r: Rect, width: u32, height: u32)
    requires
        r.inside(width as int, height as int),
    ensures
        r.spec_clip_within(width, height) == (r, Point { x: 0, y: 0 }),
{
}


/// The offset that `clip_within` returns is how far the clipped rectangle's
/// corner lies from the rectangle's own.
pub proof fn lemma_clip_offset_moves_corner(r: Rect, width: u32, height: u32)
    requires
        r.x > i32::MIN,
        r.y > i32::MIN,
    ensures
        ({
            let (clipped, offset) = r.spec_clip_within(width, height);
            clipped.x == r.x + offset.x && clipped.y == r.y + offset.y && offset.x >= 0
                && offset.y >= 0
        }),
{
}

/// A string drawn on a row above the image writes nothing.
pub proof fn lemma_string_above_image(
    old: Seq<u32>,
    w: int,
    h: int,
    p: Point,
    chars: Seq<char>,
    v: u32,
)
    requires
        old.len() == w * h,
        0 <= w,
        p.y < 0,
        chars.len() <= i32::MAX,
    ensures
        filled(old, w, string_area(p, chars.len() as int), v) == old,
        written_text(old, w, p, chars) == old,
{
    assert forall|i: int| 0 <= i < old.len() implies !#[trigger] string_area(
        p,
        chars.len() as int,
    ).contains(i % w, i / w) && !(i / w == p.y) by {
        lemma_cell_in_grid(i, w, h);
    }
    assert(filled(old, w, string_area(p, chars.len() as int), v) =~= old);
    assert(written_text(old, w, p, chars) =~= old);
}

/// A string that runs past the right edge of the image writes only the
/// prefix that falls on the image, and no cell outside that part of its row.
pub proof fn lemma_string_past_right_edge(
    old: Seq<u32>,
    w: int,
    h: int,
    p: Point,
    chars: Seq<char>,
)
    requires
        old.len() == w * h,
        0 <= p.x < w,
        0 <= p.y < h,
        p.x + chars.len() > w,
    ensures
        forall|c: int|
            p.x <= c < w ==> #[trigger] written_text(old, w, p, chars)[p.y * w + c] == glyph_of(
                chars[c - p.x],
            ),
        forall|i: int|
            0 <= i < old.len() && !(p.y * w + p.x <= i < p.y * w + w) ==> #[trigger] written_text(
                old,
                w,
                p,
                chars,
            )[i] == old[i],
{
    assert forall|c: int| p.x <= c < w implies #[trigger] written_text(old, w, p, chars)[p.y * w
        + c] == glyph_of(chars[c - p.x]) by {
        assert(p.y * w + w <= w * h) by (nonlinear_arith)
            requires
                p.y < h,
                0 <= p.y,
                0 <= w,
        ;
        assert(0 <= p.y * w) by (nonlinear_arith)
            requires
                0 <= p.y,
                0 <= w,
        ;
        lemma_row_span(p.y * w + c, w, p.y as int, p.x as int, w - p.x);
        lemma_cell_in_grid(p.y * w + c, w, h);
    }
    assert forall|i: int| 0 <= i < old.len() && !(p.y * w + p.x <= i < p.y * w + w) implies #[trigger] written_text(
        old,
        w,
        p,
        chars,
    )[i] == old[i] by {
        lemma_cell_in_grid(i, w, h);
        lemma_row_span(i, w, p.y as int, p.x as int, w - p.x);
    }
}

} // verus!
