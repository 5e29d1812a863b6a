use mage_core::image::{Image, Rect};
use mage_core::PresentInput;

struct Planes {
    fore: Vec<u32>,
    back: Vec<u32>,
    text: Vec<u32>,
}

impl Planes {
    fn new(n: usize, v: u32) -> Self {
        Planes { fore: vec![v; n], back: vec![v; n], text: vec![v; n] }
    }

    fn input(&mut self, width: u32, height: u32) -> PresentInput<'_> {
        PresentInput {
            width,
            height,
            fore_image: &mut self.fore,
            back_image: &mut self.back,
            text_image: &mut self.text,
        }
    }
}

/// A 3x3 source whose cells are numbered 1..=9 in every plane.
fn numbered_source() -> Image {
    let mut src = Image::new(3, 3);
    for i in 0..9u32 {
        src.fore_image[i as usize] = i + 1;
        src.back_image[i as usize] = 100 + i + 1;
        src.text_image[i as usize] = 200 + i + 1;
    }
    src
}

#[test]
fn present_rect_and_new_image() {
    let mut planes = Planes::new(6, 0);
    let input = planes.input(3, 2);
    assert_eq!(input.rect(), Rect::new(0, 0, 3, 2));
    let image = input.new_image();
    assert_eq!((image.width, image.height), (3, 2));
    assert_eq!(image.text_image, vec![0; 6]);
}

#[test]
fn present_clear_rect() {
    let mut planes = Planes::new(12, 5);
    let mut input = planes.input(4, 3);
    input.clear(Rect::new(1, 1, 2, 2), 9);
    assert_eq!(planes.fore, vec![5, 5, 5, 5, 5, 9, 9, 5, 5, 9, 9, 5]);
    assert_eq!(planes.back, vec![5, 5, 5, 5, 5, 9, 9, 5, 5, 9, 9, 5]);
    assert_eq!(planes.text, vec![5, 5, 5, 5, 5, 0, 0, 5, 5, 0, 0, 5]);
}

#[test]
fn blit_internal_copies_area() {
    let src = numbered_source();
    let mut planes = Planes::new(16, 0);
    let mut input = planes.input(4, 4);
    input.blit_internal(Rect::new(2, 1, 2, 2), Rect::new(1, 0, 2, 2), &src);
    assert_eq!(planes.fore, vec![0, 0, 0, 0, 0, 0, 2, 3, 0, 0, 5, 6, 0, 0, 0, 0]);
    assert_eq!(planes.text, vec![0, 0, 0, 0, 0, 0, 202, 203, 0, 0, 205, 206, 0, 0, 0, 0]);
}

#[test]
fn blit_whole_image() {
    let src = numbered_source();
    let mut planes = Planes::new(9, 0);
    let mut input = planes.input(3, 3);
    let dst = input.rect();
    input.blit(dst, src.rect(), &src, 77);
    assert_eq!(planes.fore, src.fore_image);
    assert_eq!(planes.back, src.back_image);
    assert_eq!(planes.text, src.text_image);
}

#[test]
fn blit_source_fully_outside_clears_destination() {
    let src = numbered_source();
    let mut planes = Planes::new(16, 5);
    let mut input = planes.input(4, 4);
    input.blit(Rect::new(1, 1, 2, 2), Rect::new(10, 10, 2, 2), &src, 9);
    assert_eq!(planes.fore, vec![5, 5, 5, 5, 5, 9, 9, 5, 5, 9, 9, 5, 5, 5, 5, 5]);
    assert_eq!(planes.back, vec![5, 5, 5, 5, 5, 9, 9, 5, 5, 9, 9, 5, 5, 5, 5, 5]);
    assert_eq!(planes.text, vec![5, 5, 5, 5, 5, 0, 0, 5, 5, 0, 0, 5, 5, 5, 5, 5]);
}

#[test]
fn blit_source_fully_outside_on_negative_side() {
    let src = numbered_source();
    let mut planes = Planes::new(9, 5);
    let mut input = planes.input(3, 3);
    input.blit(Rect::new(0, 0, 3, 3), Rect::new(-3, 0, 3, 3), &src, 9);
    assert_eq!(planes.fore, vec![9; 9]);
    assert_eq!(planes.text, vec![0; 9]);
}

#[test]
fn blit_source_over_negative_edge() {
    // The source rectangle starts 2 cells left of and 1 cell above the
    // source image.
    let src = numbered_source();
    let mut planes = Planes::new(16, 5);
    let mut input = planes.input(4, 4);
    input.blit(Rect::new(0, 0, 4, 3), Rect::new(-2, -1, 4, 3), &src, 9);
    assert_eq!(
        planes.fore,
        vec![9, 9, 9, 9, 9, 9, 1, 2, 9, 9, 4, 5, 5, 5, 5, 5]
    );
    assert_eq!(
        planes.back,
        vec![9, 9, 9, 9, 9, 9, 101, 102, 9, 9, 104, 105, 5, 5, 5, 5]
    );
    assert_eq!(
        planes.text,
        vec![0, 0, 0, 0, 0, 0, 201, 202, 0, 0, 204, 205, 5, 5, 5, 5]
    );
}

#[test]
fn blit_source_over_far_edge() {
    let src = numbered_source();
    let mut planes = Planes::new(9, 5);
    let mut input = planes.input(3, 3);
    input.blit(Rect::new(0, 0, 3, 3), Rect::new(1, 1, 3, 3), &src, 9);
    assert_eq!(planes.fore, vec![5, 6, 9, 8, 9, 9, 9, 9, 9]);
    assert_eq!(planes.text, vec![205, 206, 0, 208, 209, 0, 0, 0, 0]);
}
