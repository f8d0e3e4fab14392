use image::{DynamicImage, GenericImageView, Rgba};
use raytox::scene::{paint, screen, screen_offset};
use raytox::texture::bitmap::Image;

#[test]
fn screen_lists_columns_from_the_left() {
    assert_eq!(screen(2, 3), Some(vec![(0, 0), (0, 1), (0, 2), (1, 0), (1, 1), (1, 2)]));
    assert_eq!(screen(3, 1), Some(vec![(0, 0), (1, 0), (2, 0)]));
    assert_eq!(screen(1, 1), Some(vec![(0, 0)]));
}

#[test]
fn empty_screen_has_no_pixels() {
    assert_eq!(screen(0, 0), Some(vec![]));
    assert_eq!(screen(0, 7), Some(vec![]));
    assert_eq!(screen(7, 0), Some(vec![]));
}

#[test]
fn screen_of_full_size_lists_every_pixel() {
    let pixels = screen(640, 480).unwrap();
    assert_eq!(pixels.len(), 640 * 480);
    assert_eq!(pixels[0], (0, 0));
    assert_eq!(pixels[479], (0, 479));
    assert_eq!(pixels[480], (1, 0));
    assert_eq!(pixels[123 * 480 + 45], (123, 45));
    assert_eq!(pixels[640 * 480 - 1], (639, 479));
}

#[test]
fn oversized_screen_is_not_listed() {
    assert_eq!(screen(u32::MAX, 1), None);
    assert_eq!(screen(1, u32::MAX), None);
    assert_eq!(screen(0x8000_0000, 0), None);
    assert_eq!(screen(i32::MAX as u32, i32::MAX as u32), None);
}

#[test]
fn offset_is_measured_from_the_centre_in_half_pixels() {
    assert_eq!(screen_offset(800, 400, 400, 200), (0, 0));
    assert_eq!(screen_offset(800, 400, 0, 0), (-800, 400));
    assert_eq!(screen_offset(800, 400, 799, 399), (798, -398));
    assert_eq!(screen_offset(1920, 1080, 100, 1000), (-1720, -920));
}

#[test]
fn centre_of_an_odd_screen_lies_between_pixels() {
    assert_eq!(screen_offset(801, 401, 400, 200), (-1, 1));
    assert_eq!(screen_offset(801, 401, 401, 201), (1, -1));
    assert_eq!(screen_offset(3, 5, 0, 0), (-3, 5));
    assert_eq!(screen_offset(1, 1, 0, 0), (-1, 1));
}

#[test]
fn halved_offsets_are_the_exact_distances_from_the_centre() {
    let (right, up) = screen_offset(3, 5, 0, 0);
    assert_eq!((right as f64 / 2.0, up as f64 / 2.0), (-1.5, 2.5));
    let (right, up) = screen_offset(801, 401, 400, 200);
    assert_eq!((right as f64 / 2.0, up as f64 / 2.0), (400.0 - 400.5, 200.5 - 200.0));
}

#[test]
fn offset_of_far_pixels_does_not_overflow() {
    assert_eq!(
        screen_offset(u32::MAX, u32::MAX, i32::MIN, i32::MIN),
        (-4294967296 - 4294967295, 4294967295 + 4294967296)
    );
    assert_eq!(screen_offset(0, 0, i32::MAX, i32::MAX), (4294967294, -4294967294));
}

#[test]
fn paint_writes_each_pixel_in_its_place() {
    let pixels = vec![(0, 0, (10, 20, 30)), (1, 2, (40, 50, 60)), (1, 0, (70, 80, 90))];
    let frame = paint(2, 3, &pixels).unwrap();
    assert_eq!(frame.dimensions(), (2, 3));
    assert!(frame.as_rgb8().is_some());
    assert_eq!(frame.get_pixel(0, 0), Rgba([10, 20, 30, 255]));
    assert_eq!(frame.get_pixel(1, 2), Rgba([40, 50, 60, 255]));
    assert_eq!(frame.get_pixel(1, 0), Rgba([70, 80, 90, 255]));
    assert_eq!(frame.get_pixel(0, 1), Rgba([0, 0, 0, 255]));
    assert_eq!(frame.get_pixel(0, 2), Rgba([0, 0, 0, 255]));
    assert_eq!(frame.get_pixel(1, 1), Rgba([0, 0, 0, 255]));
}

#[test]
fn paint_lets_the_last_colour_of_a_place_stand() {
    let pixels = vec![(1, 1, (1, 1, 1)), (0, 0, (2, 2, 2)), (1, 1, (3, 3, 3))];
    let frame = paint(2, 2, &pixels).unwrap();
    assert_eq!(frame.get_pixel(1, 1), Rgba([3, 3, 3, 255]));
    assert_eq!(frame.get_pixel(0, 0), Rgba([2, 2, 2, 255]));
}

#[test]
fn paint_refuses_pixels_off_the_screen() {
    assert!(paint(2, 2, &vec![(2, 0, (1, 1, 1))]).is_none());
    assert!(paint(2, 2, &vec![(0, 2, (1, 1, 1))]).is_none());
    assert!(paint(2, 2, &vec![(-1, 0, (1, 1, 1))]).is_none());
    assert!(paint(2, 2, &vec![(0, 0, (1, 1, 1)), (0, -1, (1, 1, 1))]).is_none());
    assert!(paint(0, 0, &vec![(0, 0, (1, 1, 1))]).is_none());
}

#[test]
fn paint_refuses_frames_too_large_to_store() {
    assert!(paint(u32::MAX, u32::MAX, &Vec::new()).is_none());
}

#[test]
fn paint_of_nothing_is_blank() {
    let frame = paint(3, 2, &Vec::new()).unwrap();
    assert_eq!(frame.dimensions(), (3, 2));
    for x in 0..3 {
        for y in 0..2 {
            assert_eq!(frame.get_pixel(x, y), Rgba([0, 0, 0, 255]));
        }
    }
    let empty = paint(0, 0, &Vec::new()).unwrap();
    assert_eq!(empty.dimensions(), (0, 0));
}

#[test]
fn painted_screen_shows_each_traced_colour() {
    let (width, height) = (5u32, 4u32);
    let pixels: Vec<(i32, i32, (u8, u8, u8))> = screen(width, height)
        .unwrap()
        .into_iter()
        .map(|(x, y)| (x, y, (x as u8, y as u8, (10 * x + y) as u8)))
        .collect();
    let frame: DynamicImage = paint(width, height, &pixels).unwrap();
    let texture = Image::from(frame);
    for x in 0..width {
        for y in 0..height {
            assert_eq!(texture.pixel(x, y), Some((x as u8, y as u8, (10 * x + y) as u8, 255)));
        }
    }
}
