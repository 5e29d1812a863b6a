//! Row-major cell planes: what filling and copying a rectangular area means,
//! and the loops that do it.
use vstd::prelude::*;

use vstd::arithmetic::div_mod::{
    lemma_fundamental_div_mod, lemma_fundamental_div_mod_converse, lemma_mod_pos_bound,
};

use crate::image::Rect;

verus! {

/// `old`, a plane `w` cells wide, with every cell of `area` set to `v`.
pub open spec fn filled(old: Seq<u32>, w: int, area: Rect, v: u32) -> Seq<u32> {
    Seq::new(old.len(), |i: int| if area.contains(i % w, i / w) { v } else { old[i] })
}

/// `old`, a plane `w` cells wide, with every cell of `area` taken from the cell
/// at the same offset from (sx, sy) in `src`, a plane `sw` cells wide.
pub open spec fn copied(
    old: Seq<u32>,
    w: int,
    area: Rect,
    src: Seq<u32>,
    sw: int,
    sx: int,
    sy: int,
) -> Seq<u32> {
    Seq::new(
        old.len(),
        |i: int|
            if area.contains(i % w, i / w) {
                src[(sy + (i / w - area.y)) * sw + sx + (i % w - area.x)]
            } else {
                old[i]
            },
    )
}

/// `old`, a plane `w` cells wide, with every cell of `dst` taken from the cell
/// at the same offset from the corner of `src` in `src_plane`, a `sw` x `sh`
/// plane; where that cell lies off `src_plane`, the cell gets `outside`.
pub open spec fn blitted(
    old: Seq<u32>,
    w: int,
    dst: Rect,
    src_plane: Seq<u32>,
    sw: int,
    sh: int,
    src: Rect,
    outside: u32,
) -> Seq<u32> {
    Seq::new(
        old.len(),
        |i: int|
            if dst.contains(i % w, i / w) {
                let sx = src.x + (i % w - dst.x);
                let sy = src.y + (i / w - dst.y);
                if 0 <= sx < sw && 0 <= sy < sh {
                    src_plane[sy * sw + sx]
                } else {
                    outside
                }
            } else {
                old[i]
            },
    )
}

/// The cells `n` wide starting at column `x` of row `row` are exactly the
/// indices `row * w + x ..< row * w + x + n`.
pub proof fn lemma_row_span(i: int, w: int, row: int, x: int, n: int)
    requires
        0 <= i,
        0 < w,
        0 <= row,
        0 <= x,
        0 <= n,
        x + n <= w,
    ensures
        (row * w + x <= i < row * w + x + n) <==> (i / w == row && x <= i % w < x + n),
{
    lemma_fundamental_div_mod(i, w);
    lemma_mod_pos_bound(i, w);
    assert(w * (i / w) == (i / w) * w) by (nonlinear_arith);
    if row * w + x <= i < row * w + x + n {
        lemma_fundamental_div_mod_converse(i, w, row, i - row * w);
    }
}

/// A cell index of a `w` x `h` plane lies on a row below `h`.
pub proof fn lemma_cell_in_grid(i: int, w: int, h: int)
    requires
        0 <= i < w * h,
        0 <= w,
    ensures
        0 < w,
        0 <= i % w < w,
        0 <= i / w < h,
        i == (i / w) * w + i % w,
{
    if w == 0 {
        assert(w * h == 0);
    }
    lemma_fundamental_div_mod(i, w);
    lemma_mod_pos_bound(i, w);
    assert(0 <= i / w) by {
        vstd::arithmetic::div_mod::lemma_div_pos_is_pos(i, w);
    }
    assert(w * (i / w) == (i / w) * w) by (nonlinear_arith);
    if i / w >= h {
        assert(w * (i / w) >= w * h) by (nonlinear_arith)
            requires
                i / w >= h,
                w > 0,
        ;
    }
}

/// Where a row of an area inside a `w` x `h` plane starts, and that it ends
/// within the plane.
proof fn lemma_row_start_fits(w: int, h: int, row: int, x: int, n: int)
    requires
        0 <= row < h,
        0 <= x,
        0 <= n,
        x + n <= w,
    ensures
        row * w + x + n <= w * h,
        0 <= row * w,
{
    assert(row * w + w <= w * h) by (nonlinear_arith)
        requires
            row < h,
            0 <= row,
            0 <= x,
            x + 0 <= w,
    ;
    assert(0 <= row * w) by (nonlinear_arith)
        requires
            0 <= row,
            0 <= w,
    ;
}

/// Sets every cell of a plane to `v`.
pub fn fill_all(plane: &mut [u32], v: u32)
    ensures
        final(plane)@ == Seq::new(old(plane)@.len(), |i: int| v),
{
    let n = plane.len();
    let mut i: usize = 0;
    while i < n
        invariant
            n == plane@.len(),
            n == old(plane)@.len(),
            0 <= i <= n,
            forall|j: int| 0 <= j < i ==> #[trigger] plane@[j] == v,
        decreases n - i,
    {
        plane[i] = v;
        i += 1;
    }
    assert(plane@ =~= Seq::new(old(plane)@.len(), |i: int| v));
}

/// Sets every cell of `area` in a `w` x `h` plane to `v`.
pub fn fill_area(plane: &mut [u32], w: u32, h: u32, area: Rect, v: u32)
    requires
        old(plane)@.len() == w * h,
        area.inside(w as int, h as int),
    ensures
        final(plane)@ == filled(old(plane)@, w as int, area, v),
{
    let ghost start = plane@;
    let _ = plane.len();
    let wu = w as usize;
    let x = area.x as usize;
    let y = area.y as usize;
    let aw = area.width as usize;
    let ah = area.height as usize;
    let mut row: usize = 0;
    while row < ah
        invariant
            start.len() == w * h,
            start.len() <= usize::MAX,
            plane@.len() == start.len(),
            area.inside(w as int, h as int),
            wu == w,
            x == area.x,
            y == area.y,
            aw == area.width,
            ah == area.height,
            0 <= row <= ah,
            plane@ == filled(start, w as int, Rect { height: row as u32, ..area }, v),
        decreases ah - row,
    {
        let ghost before = plane@;
        proof {
            lemma_row_start_fits(wu as int, h as int, (y + row) as int, x as int, aw as int);
        }
        let base = (y + row) * wu + x;
        let mut c: usize = 0;
        while c < aw
            invariant
                plane@.len() == before.len(),
                before.len() == w * h,
                before.len() <= usize::MAX,
                base + aw <= w * h,
                0 <= c <= aw,
                forall|i: int|
                    0 <= i < before.len() ==> #[trigger] plane@[i] == if base <= i < base + c {
                        v
                    } else {
                        before[i]
                    },
            decreases aw - c,
        {
            plane[base + c] = v;
            c += 1;
        }
        proof {
            let next = Rect { height: (row + 1) as u32, ..area };
            assert forall|i: int| 0 <= i < plane@.len() implies #[trigger] plane@[i] == filled(
                start,
                w as int,
                next,
                v,
            )[i] by {
                lemma_row_span(i, w as int, (y + row) as int, x as int, aw as int);
            }
            assert(plane@ =~= filled(start, w as int, next, v));
        }
        row += 1;
    }
    proof {
        assert(Rect { height: row as u32, ..area } == area);
    }
}

/// Copies `area` of a `w` x `h` plane from the equally sized area at (sx, sy)
/// of `src`, a `sw` x `sh` plane.
pub fn copy_area(
    plane: &mut [u32],
    w: u32,
    h: u32,
    area: Rect,
    src: &[u32],
    sw: u32,
    sh: u32,
    sx: u32,
    sy: u32,
)
    requires
        old(plane)@.len() == w * h,
        src@.len() == sw * sh,
        area.inside(w as int, h as int),
        (Rect { x: sx as i32, y: sy as i32, width: area.width, height: area.height }).inside(
            sw as int,
            sh as int,
        ),
        sx <= i32::MAX,
        sy <= i32::MAX,
    ensures
        final(plane)@ == copied(old(plane)@, w as int, area, src@, sw as int, sx as int, sy as int),
{
    let ghost start = plane@;
    let _ = plane.len();
    let _ = src.len();
    let wu = w as usize;
    let swu = sw as usize;
    let x = area.x as usize;
    let y = area.y as usize;
    let aw = area.width as usize;
    let ah = area.height as usize;
    let mut row: usize = 0;
    while row < ah
        invariant
            start.len() == w * h,
            start.len() <= usize::MAX,
            src@.len() == sw * sh,
            src@.len() <= usize::MAX,
            plane@.len() == start.len(),
            area.inside(w as int, h as int),
            sx + aw <= sw,
            sy + ah <= sh,
            wu == w,
            swu == sw,
            x == area.x,
            y == area.y,
            aw == area.width,
            ah == area.height,
            0 <= row <= ah,
            plane@ == copied(
                start,
                w as int,
                Rect { height: row as u32, ..area },
                src@,
                sw as int,
                sx as int,
                sy as int,
            ),
        decreases ah - row,
    {
        let ghost before = plane@;
        proof {
            lemma_row_start_fits(wu as int, h as int, (y + row) as int, x as int, aw as int);
            lemma_row_start_fits(
                swu as int,
                sh as int,
                (sy + row) as int,
                sx as int,
                aw as int,
            );
        }
        let base = (y + row) * wu + x;
        let sbase = (sy as usize + row) * swu + sx as usize;
        let mut c: usize = 0;
        while c < aw
            invariant
                plane@.len() == before.len(),
                before.len() == w * h,
                before.len() <= usize::MAX,
                src@.len() == sw * sh,
                src@.len() <= usize::MAX,
                base + aw <= w * h,
                sbase + aw <= sw * sh,
                0 <= c <= aw,
                forall|i: int|
                    0 <= i < before.len() ==> #[trigger] plane@[i] == if base <= i < base + c {
                        src@[sbase + (i - base)]
                    } else {
                        before[i]
                    },
            decreases aw - c,
        {
            let value = src[sbase + c];
            plane[base + c] = value;
            c += 1;
        }
        proof {
            let next = Rect { height: (row + 1) as u32, ..area };
            assert forall|i: int| 0 <= i < plane@.len() implies #[trigger] plane@[i] == copied(
                start,
                w as int,
                next,
                src@,
                sw as int,
                sx as int,
                sy as int,
            )[i] by {
                lemma_row_span(i, w as int, (y + row) as int, x as int, aw as int);
                if base <= i < base + aw {
                    let wi = w as int;
                    let swi = sw as int;
                    let q = i / wi;
                    let m = i % wi;
                    vstd::arithmetic::div_mod::lemma_fundamental_div_mod(i, wi);
                    assert((sy + (q - area.y)) * swi + sx + (m - area.x) == sbase + (i - base))
                        by (nonlinear_arith)
                        requires
                            q == y + row,
                            base == (y + row) * wi + x,
                            sbase == (sy + row) * swi + sx,
                            i == wi * q + m,
                            x == area.x,
                            y == area.y,
                    ;
                }
            }
            assert(plane@ =~= copied(start, w as int, next, src@, sw as int, sx as int, sy as int));
        }
        row += 1;
    }
    proof {
        assert(Rect { height: row as u32, ..area } == area);
    }
}

} // verus!
