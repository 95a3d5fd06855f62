use imagene::raster::Image;

fn img_from(w: u32, h: u32, bytes: Vec<u8>) -> Image {
    Image::from_raw(w, h, bytes).expect("buffer length must match dimensions")
}

fn px(r: u8, g: u8, b: u8, a: u8) -> Vec<u8> {
    vec![r, g, b, a]
}

fn cat(chunks: Vec<Vec<u8>>) -> Vec<u8> {
    chunks.into_iter().flatten().collect()
}

#[test]
fn from_raw_rejects_wrong_length() {
    assert!(Image::from_raw(2, 2, vec![0u8; 15]).is_none());
    assert!(Image::from_raw(2, 2, vec![0u8; 16]).is_some());
    assert!(Image::from_raw(0, 0, Vec::new()).is_some());
}

#[test]
fn invert_exact_values() {
    let img = img_from(1, 1, px(10, 20, 30, 40));
    let inv = img.invert();
    assert_eq!(inv.pixel(0, 0), (245, 235, 225, 40));
}

#[test]
fn invert_twice_is_identity() {
    let data = cat(vec![px(1, 2, 3, 4), px(200, 150, 100, 50), px(0, 255, 7, 9), px(
        80, 90, 100, 110,
    )]);
    let img = img_from(2, 2, data.clone());
    let back = img.invert().invert();
    assert_eq!(back.bytes().as_slice(), data.as_slice());
}

#[test]
fn flip_horizontal_exact() {
    let a = px(1, 2, 3, 4);
    let b = px(5, 6, 7, 8);
    let img = img_from(2, 1, cat(vec![a.clone(), b.clone()]));
    let f = img.flip_horizontal();
    assert_eq!(f.bytes().as_slice(), cat(vec![b, a]).as_slice());
}

#[test]
fn flip_horizontal_twice_is_identity() {
    let data = cat(vec![px(1, 2, 3, 4), px(5, 6, 7, 8), px(9, 10, 11, 12), px(13, 14, 15, 16)]);
    let img = img_from(2, 2, data.clone());
    let back = img.flip_horizontal().flip_horizontal();
    assert_eq!(back.bytes().as_slice(), data.as_slice());
}

#[test]
fn flip_vertical_twice_is_identity() {
    let data = cat(vec![px(1, 2, 3, 4), px(5, 6, 7, 8), px(9, 10, 11, 12), px(13, 14, 15, 16)]);
    let img = img_from(2, 2, data.clone());
    let back = img.flip_vertical().flip_vertical();
    assert_eq!(back.bytes().as_slice(), data.as_slice());
}

#[test]
fn rotate_left_exact() {
    // A row [A B] turned a quarter turn counter-clockwise puts B on top.
    let a = px(1, 2, 3, 4);
    let b = px(5, 6, 7, 8);
    let img = img_from(2, 1, cat(vec![a.clone(), b.clone()]));
    let r = img.rotate_left();
    assert_eq!(r.width(), 1);
    assert_eq!(r.height(), 2);
    assert_eq!(r.bytes().as_slice(), cat(vec![b, a]).as_slice());
}

#[test]
fn rotate_left_four_times_is_identity() {
    let data = cat(vec![
        px(1, 2, 3, 4),
        px(5, 6, 7, 8),
        px(9, 10, 11, 12),
        px(13, 14, 15, 16),
        px(17, 18, 19, 20),
        px(21, 22, 23, 24),
    ]);
    let img = img_from(3, 2, data.clone());
    let back = img.rotate_left().rotate_left().rotate_left().rotate_left();
    assert_eq!(back.width(), 3);
    assert_eq!(back.height(), 2);
    assert_eq!(back.bytes().as_slice(), data.as_slice());
}

#[test]
fn rotate_down_twice_is_identity() {
    let data = cat(vec![px(1, 2, 3, 4), px(5, 6, 7, 8), px(9, 10, 11, 12), px(13, 14, 15, 16)]);
    let img = img_from(2, 2, data.clone());
    let back = img.rotate_down().rotate_down();
    assert_eq!(back.bytes().as_slice(), data.as_slice());
}

#[test]
fn rotate_right_then_left_is_identity() {
    let data = cat(vec![px(1, 2, 3, 4), px(5, 6, 7, 8)]);
    let img = img_from(2, 1, data.clone());
    let back = img.rotate_right().rotate_left();
    assert_eq!(back.bytes().as_slice(), data.as_slice());
}

#[test]
fn crop_full_extent_is_noop() {
    let data = cat(vec![px(1, 2, 3, 4), px(5, 6, 7, 8), px(9, 10, 11, 12), px(13, 14, 15, 16)]);
    let img = img_from(2, 2, data.clone());
    let c = img.crop(0, 0, 2, 2);
    assert_eq!(c.width(), 2);
    assert_eq!(c.height(), 2);
    assert_eq!(c.bytes().as_slice(), data.as_slice());
}

#[test]
fn crop_takes_sub_rectangle() {
    let img = img_from(2, 2, cat(vec![px(1, 1, 1, 1), px(2, 2, 2, 2), px(3, 3, 3, 3), px(
        4, 4, 4, 4,
    )]));
    let c = img.crop(1, 1, 1, 1);
    assert_eq!((c.width(), c.height()), (1, 1));
    assert_eq!(c.pixel(0, 0), (4, 4, 4, 4));
}

#[test]
fn crop_clamps_to_bounds() {
    let img = img_from(2, 2, cat(vec![px(1, 1, 1, 1), px(2, 2, 2, 2), px(3, 3, 3, 3), px(
        4, 4, 4, 4,
    )]));
    let c = img.crop(1, 0, 10, 10);
    assert_eq!((c.width(), c.height()), (1, 2));
    assert_eq!(c.pixel(0, 0), (2, 2, 2, 2));
    assert_eq!(c.pixel(0, 1), (4, 4, 4, 4));
    let empty = img.crop(5, 5, 1, 1);
    assert_eq!((empty.width(), empty.height()), (0, 0));
}

#[test]
fn brighten_shifts_and_clamps() {
    let img = img_from(2, 1, cat(vec![px(250, 100, 5, 200), px(0, 255, 128, 7)]));
    let up = img.brighten(10);
    assert_eq!(up.pixel(0, 0), (255, 110, 15, 200));
    assert_eq!(up.pixel(1, 0), (10, 255, 138, 7));
    let down = img.brighten(-10);
    assert_eq!(down.pixel(0, 0), (240, 90, 0, 200));
    assert_eq!(down.pixel(1, 0), (0, 245, 118, 7));
}

#[test]
fn append_horizontal_pads_with_transparency() {
    let a = img_from(2, 2, cat(vec![px(1, 1, 1, 1), px(2, 2, 2, 2), px(3, 3, 3, 3), px(
        4, 4, 4, 4,
    )]));
    let b = img_from(1, 1, px(9, 9, 9, 9));
    let joined = Image::append_horizontal(&a, &b).expect("canvas fits");
    assert_eq!((joined.width(), joined.height()), (3, 2));
    assert_eq!(joined.pixel(0, 0), (1, 1, 1, 1));
    assert_eq!(joined.pixel(2, 0), (9, 9, 9, 9));
    assert_eq!(joined.pixel(2, 1), (0, 0, 0, 0));
}

#[test]
fn append_vertical_pads_with_transparency() {
    let a = img_from(1, 1, px(5, 5, 5, 5));
    let b = img_from(2, 1, cat(vec![px(6, 6, 6, 6), px(7, 7, 7, 7)]));
    let joined = Image::append_vertical(&a, &b).expect("canvas fits");
    assert_eq!((joined.width(), joined.height()), (2, 2));
    assert_eq!(joined.pixel(0, 0), (5, 5, 5, 5));
    assert_eq!(joined.pixel(1, 0), (0, 0, 0, 0));
    assert_eq!(joined.pixel(0, 1), (6, 6, 6, 6));
    assert_eq!(joined.pixel(1, 1), (7, 7, 7, 7));
}

#[test]
fn duplicate_copies_buffer() {
    let data = cat(vec![px(1, 2, 3, 4), px(5, 6, 7, 8)]);
    let img = img_from(2, 1, data.clone());
    let copy = img.duplicate();
    assert_eq!(copy.width(), 2);
    assert_eq!(copy.height(), 1);
    assert_eq!(copy.bytes().as_slice(), data.as_slice());
}
