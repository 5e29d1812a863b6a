use vstd::prelude::*;

use crate::app::PresentInput;
use crate::image::{Image, Rect};
use crate::plane::{blitted, copied, copy_area, fill_area, filled, lemma_cell_in_grid};

verus! {

impl<'t> PresentInput<'t> {
    /// The three planes hold one cell for each position of the screen, whose
    /// sides fit a coordinate.
    pub open spec fn wf(&self) -> bool {
        &&& self.fore_image@.len() == self.width * self.height
        &&& self.back_image@.len() == self.width * self.height
        &&& self.text_image@.len() == self.width * self.height
        &&& self.width <= i32::MAX
        &&& self.height <= i32::MAX
    }

    pub open spec fn spec_rect(&self) -> Rect {
        Rect { x: 0, y: 0, width: self.width, height: self.height }
    }

    /// The bounds of the screen: a rectangle at the origin of its size.
    pub fn rect(&self) -> (r: Rect)
        ensures
            r == self.spec_rect(),
    {
        Rect { x: 0, y: 0, width: self.width, height: self.height }
    }

    /// A new image of the screen's size, every cell zero.
    pub fn new_image(&self) -> (r: Image)
        requires
            self.wf(),
        ensures
            r.wf(),
            r.width == self.width,
            r.height == self.height,
            r.fore_image@ == Seq::new((self.width * self.height) as nat, |i: int| 0u32),
            r.back_image@ == Seq::new((self.width * self.height) as nat, |i: int| 0u32),
            r.text_image@ == Seq::new((self.width * self.height) as nat, |i: int| 0u32),
    {
        let _ = self.fore_image.len();
        Image::new(self.width, self.height)
    }

    /// Clears a rectangle of the screen: both colours become `paper` and the
    /// glyphs zero. The rectangle must lie on the screen.
    pub fn clear(&mut self, rect: Rect, paper: u32)
        requires
            old(self).wf(),
            rect.inside(old(self).width as int, old(self).height as int),
        ensures
            final(self).wf(),
            final(self).width == old(self).width,
            final(self).height == old(self).height,
            final(self).fore_image@ == filled(old(self).fore_image@, old(self).width as int, rect, paper),
            final(self).back_image@ == filled(old(self).back_image@, old(self).width as int, rect, paper),
            final(self).text_image@ == filled(old(self).text_image@, old(self).width as int, rect, 0),
            final(final(self).fore_image)@ == final(old(self).fore_image)@,
            final(final(self).back_image)@ == final(old(self).back_image)@,
            final(final(self).text_image)@ == final(old(self).text_image)@,
    {
        fill_area(self.fore_image, self.width, self.height, rect, paper);
        fill_area(self.back_image, self.width, self.height, rect, paper);
        fill_area(self.text_image, self.width, self.height, rect, 0);
    }

    /// Copies `src_rect` of `src_image` to `dst_rect` of the screen. Both
    /// rectangles have one size, and each lies on its own grid.
    pub fn blit_internal(&mut self, dst_rect: Rect, src_rect: Rect, src_image: &Image)
        requires
            old(self).wf(),
            src_image.wf(),
            dst_rect.width == src_rect.width,
            dst_rect.height == src_rect.height,
            dst_rect.inside(old(self).width as int, old(self).height as int),
            src_rect.inside(src_image.width as int, src_image.height as int),
        ensures
            final(self).wf(),
            final(self).width == old(self).width,
            final(self).height == old(self).height,
            final(self).fore_image@ == copied(
                old(self).fore_image@,
                old(self).width as int,
                dst_rect,
                src_image.fore_image@,
                src_image.width as int,
                src_rect.x as int,
                src_rect.y as int,
            ),
            final(self).back_image@ == copied(
                old(self).back_image@,
                old(self).width as int,
                dst_rect,
                src_image.back_image@,
                src_image.width as int,
                src_rect.x as int,
                src_rect.y as int,
            ),
            final(self).text_image@ == copied(
                old(self).text_image@,
                old(self).width as int,
                dst_rect,
                src_image.text_image@,
                src_image.width as int,
                src_rect.x as int,
                src_rect.y as int,
            ),
            final(final(self).fore_image)@ == final(old(self).fore_image)@,
            final(final(self).back_image)@ == final(old(self).back_image)@,
            final(final(self).text_image)@ == final(old(self).text_image)@,
    {
        let sx = src_rect.x as u32;
        let sy = src_rect.y as u32;
        copy_area(
            self.fore_image,
            self.width,
            self.height,
            dst_rect,
            src_image.fore_image.as_slice(),
            src_image.width,
            src_image.height,
            sx,
            sy,
        );
        copy_area(
            self.back_image,
            self.width,
            self.height,
            dst_rect,
            src_image.back_image.as_slice(),
            src_image.width,
            src_image.height,
            sx,
            sy,
        );
        copy_area(
            self.text_image,
            self.width,
            self.height,
            dst_rect,
            src_image.text_image.as_slice(),
            src_image.width,
            src_image.height,
            sx,
            sy,
        );
    }

    /// Blits `src_rect` of `src_image` to `dst_rect` of the screen.
    ///
    /// The two rectangles have one size, and `dst_rect` lies on the screen.
    /// `src_rect` is clipped to `src_image`: each cell of `dst_rect` whose
    /// source cell lies outside the image is cleared to `paper` (both colours,
    /// glyph zero); the others are copied. Cells outside `dst_rect` are left
    /// as they are.
    pub fn blit(&mut self, dst_rect: Rect, src_rect: Rect, src_image: &Image, paper: u32)
        requires
            old(self).wf(),
            src_image.wf(),
            dst_rect.width == src_rect.width,
            dst_rect.height == src_rect.height,
            dst_rect.inside(old(self).width as int, old(self).height as int),
        ensures
            final(self).wf(),
            final(self).width == old(self).width,
            final(self).height == old(self).height,
            final(self).fore_image@ == blitted(
                old(self).fore_image@,
                old(self).width as int,
                dst_rect,
                src_image.fore_image@,
                src_image.width as int,
                src_image.height as int,
                src_rect,
                paper,
            ),
            final(self).back_image@ == blitted(
                old(self).back_image@,
                old(self).width as int,
                dst_rect,
                src_image.back_image@,
                src_image.width as int,
                src_image.height as int,
                src_rect,
                paper,
            ),
            final(self).text_image@ == blitted(
                old(self).text_image@,
                old(self).width as int,
                dst_rect,
                src_image.text_image@,
                src_image.width as int,
                src_image.height as int,
                src_rect,
                0,
            ),
            final(final(self).fore_image)@ == final(old(self).fore_image)@,
            final(final(self).back_image)@ == final(old(self).back_image)@,
            final(final(self).text_image)@ == final(old(self).text_image)@,
    {
        let ghost w = self.width as int;
        let ghost h = self.height as int;
        let ghost sw = src_image.width as int;
        let ghost sh = src_image.height as int;
        let ghost fore0 = self.fore_image@;
        let ghost back0 = self.back_image@;
        let ghost text0 = self.text_image@;
        let ghost len = fore0.len();

        // The part of the source rectangle on the source image.
        let clipped = src_rect.intersect(src_image.rect());
        if clipped.width == 0 || clipped.height == 0 {
            // Nothing to copy, so clear it all.
            self.clear(dst_rect, paper);
            proof {
                assert forall|i: int|
                    #![trigger self.fore_image@[i]]
                    #![trigger self.back_image@[i]]
                    #![trigger self.text_image@[i]]
                    0 <= i < len implies self.fore_image@[i] == blitted(
                        fore0,
                        w,
                        dst_rect,
                        src_image.fore_image@,
                        sw,
                        sh,
                        src_rect,
                        paper,
                    )[i] && self.back_image@[i] == blitted(
                        back0,
                        w,
                        dst_rect,
                        src_image.back_image@,
                        sw,
                        sh,
                        src_rect,
                        paper,
                    )[i] && self.text_image@[i] == blitted(
                        text0,
                        w,
                        dst_rect,
                        src_image.text_image@,
                        sw,
                        sh,
                        src_rect,
                        0,
                    )[i] by {
                    lemma_cell_in_grid(i, w, h);
                }
                assert(self.fore_image@ =~= blitted(fore0, w, dst_rect, src_image.fore_image@, sw, sh, src_rect, paper));
                assert(self.back_image@ =~= blitted(back0, w, dst_rect, src_image.back_image@, sw, sh, src_rect, paper));
                assert(self.text_image@ =~= blitted(text0, w, dst_rect, src_image.text_image@, sw, sh, src_rect, 0));
            }
            return;
        }
        // How far the visible part lies from the source rectangle's corner,
        // and where it lands on the screen.
        let off_x = (clipped.x as i64 - src_rect.x as i64) as u32;
        let off_y = (clipped.y as i64 - src_rect.y as i64) as u32;
        let visible = Rect {
            x: dst_rect.x + off_x as i32,
            y: dst_rect.y + off_y as i32,
            width: clipped.width,
            height: clipped.height,
        };
        let right = visible.x as u32 + visible.width;
        let bottom = visible.y as u32 + visible.height;
        let dst_right = dst_rect.x as u32 + dst_rect.width;
        let dst_bottom = dst_rect.y as u32 + dst_rect.height;

        // Rows above the visible part.
        let top_band = Rect { x: dst_rect.x, y: dst_rect.y, width: dst_rect.width, height: off_y };
        self.clear(top_band, paper);
        let ghost fore1 = self.fore_image@;
        let ghost back1 = self.back_image@;
        let ghost text1 = self.text_image@;
        // Rows below it.
        let bottom_band = Rect {
            x: dst_rect.x,
            y: bottom as i32,
            width: dst_rect.width,
            height: dst_bottom - bottom,
        };
        self.clear(bottom_band, paper);
        let ghost fore2 = self.fore_image@;
        let ghost back2 = self.back_image@;
        let ghost text2 = self.text_image@;
        // Columns left of it.
        let left_band = Rect { x: dst_rect.x, y: visible.y, width: off_x, height: visible.height };
        self.clear(left_band, paper);
        let ghost fore3 = self.fore_image@;
        let ghost back3 = self.back_image@;
        let ghost text3 = self.text_image@;
        // Columns right of it.
        let right_band = Rect {
            x: right as i32,
            y: visible.y,
            width: dst_right - right,
            height: visible.height,
        };
        self.clear(right_band, paper);
        let ghost fore4 = self.fore_image@;
        let ghost back4 = self.back_image@;
        let ghost text4 = self.text_image@;

        self.blit_internal(visible, clipped, src_image);
        proof {
            assert forall|i: int|
                #![trigger self.fore_image@[i]]
                #![trigger self.back_image@[i]]
                #![trigger self.text_image@[i]]
                0 <= i < len implies self.fore_image@[i] == blitted(
                    fore0,
                    w,
                    dst_rect,
                    src_image.fore_image@,
                    sw,
                    sh,
                    src_rect,
                    paper,
                )[i] && self.back_image@[i] == blitted(
                    back0,
                    w,
                    dst_rect,
                    src_image.back_image@,
                    sw,
                    sh,
                    src_rect,
                    paper,
                )[i] && self.text_image@[i] == blitted(
                    text0,
                    w,
                    dst_rect,
                    src_image.text_image@,
                    sw,
                    sh,
                    src_rect,
                    0,
                )[i] by {
                lemma_cell_in_grid(i, w, h);
                assert(fore1[i] == filled(fore0, w, top_band, paper)[i]);
                assert(fore2[i] == filled(fore1, w, bottom_band, paper)[i]);
                assert(fore3[i] == filled(fore2, w, left_band, paper)[i]);
                assert(fore4[i] == filled(fore3, w, right_band, paper)[i]);
                assert(back1[i] == filled(back0, w, top_band, paper)[i]);
                assert(back2[i] == filled(back1, w, bottom_band, paper)[i]);
                assert(back3[i] == filled(back2, w, left_band, paper)[i]);
                assert(back4[i] == filled(back3, w, right_band, paper)[i]);
                assert(text1[i] == filled(text0, w, top_band, 0)[i]);
                assert(text2[i] == filled(text1, w, bottom_band, 0)[i]);
                assert(text3[i] == filled(text2, w, left_band, 0)[i]);
                assert(text4[i] == filled(text3, w, right_band, 0)[i]);
            }
            assert(self.fore_image@ =~= blitted(fore0, w, dst_rect, src_image.fore_image@, sw, sh, src_rect, paper));
            assert(self.back_image@ =~= blitted(back0, w, dst_rect, src_image.back_image@, sw, sh, src_rect, paper));
            assert(self.text_image@ =~= blitted(text0, w, dst_rect, src_image.text_image@, sw, sh, src_rect, 0));
        }
    }
}

/// A blit whose source rectangle lies wholly off the source image clears the
/// whole destination rectangle and copies nothing.
pub proof fn lemma_blit_off_image_clears(
    old: Seq<u32>,
    w: int,
    dst_rect: Rect,
    src_plane: Seq<u32>,
    sw: u32,
    sh: u32,
    src_rect: Rect,
    outside: u32,
)
    requires
        dst_rect.width == src_rect.width,
        dst_rect.height == src_rect.height,
        src_rect.spec_intersect(Rect { x: 0, y: 0, width: sw, height: sh }).is_empty(),
    ensures
        blitted(old, w, dst_rect, src_plane, sw as int, sh as int, src_rect, outside) == filled(
            old,
            w,
            dst_rect,
            outside,
        ),
{
    assert(blitted(old, w, dst_rect, src_plane, sw as int, sh as int, src_rect, outside) =~= filled(
        old,
        w,
        dst_rect,
        outside,
    ));
}

} // verus!
