use mage_core::image::{Char, Image, Point, Rect};

fn glyphs(image: &Image, y: u32) -> Vec<u32> {
    let w = image.width as usize;
    image.text_image[y as usize * w..(y as usize + 1) * w].to_vec()
}

#[test]
fn new_image_is_zero() {
    let image = Image::new(4, 3);
    assert_eq!(image.width, 4);
    assert_eq!(image.height, 3);
    assert_eq!(image.fore_image, vec![0; 12]);
    assert_eq!(image.back_image, vec![0; 12]);
    assert_eq!(image.text_image, vec![0; 12]);
    assert_eq!(image.rect(), Rect::new(0, 0, 4, 3));
}

#[test]
fn coords_to_index_row_major() {
    let image = Image::new(4, 3);
    assert_eq!(image.coords_to_index(1, 2), Some(9));
    assert_eq!(image.point_to_index(Point::new(3, 0)), Some(3));
    assert_eq!(image.coords_to_index(4, 0), None);
    assert_eq!(image.coords_to_index(0, 3), None);
    assert_eq!(image.coords_to_index(-1, 0), None);
    assert_eq!(image.coords_to_index(0, -1), None);
}

#[test]
fn clear_sets_all_cells() {
    let mut image = Image::new(3, 2);
    image.draw_char(Point::new(1, 1), Char::new(b'x', 5, 6));
    image.clear(7, 8);
    assert_eq!(image.fore_image, vec![7; 6]);
    assert_eq!(image.back_image, vec![8; 6]);
    assert_eq!(image.text_image, vec![0; 6]);
}

#[test]
fn draw_char_in_and_out_of_bounds() {
    let mut image = Image::new(3, 2);
    image.draw_char(Point::new(2, 1), Char::new_u32(300, 11, 12));
    assert_eq!(image.fore_image[5], 11);
    assert_eq!(image.back_image[5], 12);
    assert_eq!(image.text_image[5], 300);
    image.draw_char(Point::new(3, 0), Char::new(1, 1, 1));
    image.draw_char(Point::new(-1, 0), Char::new(1, 1, 1));
    image.draw_char(Point::new(0, 2), Char::new(1, 1, 1));
    assert_eq!(image.text_image, vec![0, 0, 0, 0, 0, 300]);
}

#[test]
fn char_new_char_cuts_to_a_byte() {
    let c = Char::new_char('A', 1, 2);
    assert_eq!(c.ch, 65);
    assert_eq!(c.ink, 1);
    assert_eq!(c.paper, 2);
    assert_eq!(Char::new_char('\u{141}', 0, 0).ch, 0x41);
}

#[test]
fn draw_string_inside() {
    let mut image = Image::new(6, 2);
    image.draw_string(Point::new(1, 1), "abc", 3, 4);
    assert_eq!(glyphs(&image, 1), vec![0, 97, 98, 99, 0, 0]);
    assert_eq!(glyphs(&image, 0), vec![0; 6]);
    assert_eq!(image.fore_image[6..12].to_vec(), vec![0, 3, 3, 3, 0, 0]);
    assert_eq!(image.back_image[6..12].to_vec(), vec![0, 4, 4, 4, 0, 0]);
}

#[test]
fn draw_string_past_right_edge_writes_prefix() {
    let mut image = Image::new(5, 2);
    image.clear(9, 9);
    image.draw_string(Point::new(3, 0), "hello", 1, 2);
    assert_eq!(glyphs(&image, 0), vec![0, 0, 0, 104, 101]);
    assert_eq!(image.fore_image, vec![9, 9, 9, 1, 1, 9, 9, 9, 9, 9]);
    assert_eq!(image.back_image, vec![9, 9, 9, 2, 2, 9, 9, 9, 9, 9]);
    assert_eq!(glyphs(&image, 1), vec![0; 5]);
}

#[test]
fn draw_string_negative_row_writes_nothing() {
    let mut image = Image::new(5, 2);
    image.clear(9, 9);
    image.draw_string(Point::new(0, -1), "hello", 1, 2);
    assert_eq!(image.fore_image, vec![9; 10]);
    assert_eq!(image.back_image, vec![9; 10]);
    assert_eq!(image.text_image, vec![0; 10]);
}

#[test]
fn draw_string_negative_column_skips_leading_chars() {
    let mut image = Image::new(5, 1);
    image.draw_string(Point::new(-2, 0), "hello", 1, 2);
    assert_eq!(glyphs(&image, 0), vec![108, 108, 111, 0, 0]);
    assert_eq!(image.fore_image, vec![1, 1, 1, 0, 0]);
}

#[test]
fn draw_string_off_the_image_writes_nothing() {
    let mut image = Image::new(5, 2);
    image.draw_string(Point::new(5, 0), "hi", 1, 2);
    image.draw_string(Point::new(0, 2), "hi", 1, 2);
    image.draw_string(Point::new(-9, 1), "hi", 1, 2);
    image.draw_string(Point::new(i32::MIN, 0), "hi", 1, 2);
    assert_eq!(image.fore_image, vec![0; 10]);
    assert_eq!(image.text_image, vec![0; 10]);
}

#[test]
fn draw_string_one_cell_per_character() {
    let mut image = Image::new(4, 1);
    image.draw_string(Point::new(0, 0), "\u{e9}a", 1, 2);
    assert_eq!(glyphs(&image, 0), vec![0xe9, 97, 0, 0]);
    assert_eq!(image.fore_image, vec![1, 1, 0, 0]);
}

#[test]
fn draw_filled_rect_clips() {
    let mut image = Image::new(4, 3);
    image.draw_filled_rect(Rect::new(-1, 1, 3, 5), Char::new(b'#', 7, 8));
    assert_eq!(image.text_image, vec![0, 0, 0, 0, 35, 35, 0, 0, 35, 35, 0, 0]);
    assert_eq!(image.fore_image, vec![0, 0, 0, 0, 7, 7, 0, 0, 7, 7, 0, 0]);
    assert_eq!(image.back_image, vec![0, 0, 0, 0, 8, 8, 0, 0, 8, 8, 0, 0]);
}

#[test]
fn draw_filled_rect_outside_draws_nothing() {
    let mut image = Image::new(4, 3);
    image.draw_filled_rect(Rect::new(4, 0, 3, 3), Char::new(b'#', 7, 8));
    image.draw_filled_rect(Rect::new(-5, -5, 3, 3), Char::new(b'#', 7, 8));
    assert_eq!(image.text_image, vec![0; 12]);
}
