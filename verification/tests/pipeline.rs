use imagene::actions::{Action, Direction, Flags, Orientation, OutFormat, Rotation};
use imagene::engine::{scale_dims, Engine, StepOutcome};
use imagene::format::{default_format, resolve_format};
use imagene::raster::Image;
use imagene::registry::{FontSet, LoadStatus, Registry};
use imagene::flag_is_enabled;

/// PNG bytes of a `w × h` image whose pixels repeat the given RGBA value.
fn png_bytes(w: u32, h: u32, rgba: [u8; 4]) -> Vec<u8> {
    let mut buf = image::RgbaImage::new(w, h);
    for p in buf.pixels_mut() {
        *p = image::Rgba(rgba);
    }
    let mut out = Vec::new();
    image::DynamicImage::ImageRgba8(buf)
        .write_to(&mut out, image::ImageOutputFormat::Png)
        .expect("png encoding");
    out
}

fn engine_on(primary: Vec<u8>) -> Engine {
    let mut reg = Registry::new();
    let name = String::from("in.png");
    assert_eq!(reg.load(&name, &primary), LoadStatus::Loaded);
    Engine::new(&name, reg, FontSet::new(), &Flags { lanczos3: false }).expect("input registered")
}

#[test]
fn registry_decodes_each_path_once() {
    let bytes = png_bytes(1, 1, [1, 2, 3, 4]);
    let mut reg = Registry::new();
    let name = String::from("extra.png");
    assert_eq!(reg.load(&name, &bytes), LoadStatus::Loaded);
    assert_eq!(reg.load(&name, &bytes), LoadStatus::Shared);
    assert_eq!(reg.len(), 1);
    let img = reg.get(&name).expect("registered");
    assert_eq!((img.width(), img.height()), (1, 1));
    assert_eq!(img.pixel(0, 0), (1, 2, 3, 4));
}

#[test]
fn registry_rejects_undecodable_bytes() {
    let mut reg = Registry::new();
    let name = String::from("broken.png");
    let garbage = vec![1u8, 2, 3, 4, 5];
    assert_eq!(reg.load(&name, &garbage), LoadStatus::Failed);
    assert_eq!(reg.len(), 0);
    assert!(reg.get(&name).is_none());
}

#[test]
fn engine_requires_registered_input() {
    let reg = Registry::new();
    let name = String::from("absent.png");
    assert!(Engine::new(&name, reg, FontSet::new(), &Flags { lanczos3: false }).is_none());
}

#[test]
fn watermark_with_unusable_font_leaves_image_untouched() {
    let mut engine = engine_on(png_bytes(2, 2, [10, 20, 30, 40]));
    let before = engine.image().bytes().clone();
    let action = Action::Watermark {
        text: String::from("hello"),
        color: (255, 0, 0, 255),
        font: String::from("missing.ttf"),
    };
    assert_eq!(engine.step(&action), StepOutcome::Applied);
    assert_eq!(engine.image().bytes().as_slice(), before.as_slice());
}

#[test]
fn font_registry_rejects_bytes_that_do_not_parse() {
    let mut fonts = FontSet::new();
    let name = String::from("broken.ttf");
    let garbage = vec![0u8; 32];
    fonts.register(&name, Some(&garbage));
    assert!(!fonts.usable(&name));
    let unread = String::from("unreadable.ttf");
    fonts.register(&unread, None);
    assert!(!fonts.usable(&unread));
}

#[test]
fn brightness_then_contrast_matches_formulas() {
    let mut engine = engine_on(png_bytes(2, 2, [100, 150, 200, 255]));
    assert_eq!(engine.step(&Action::Brightness(10)), StepOutcome::Applied);
    assert_eq!(engine.image().pixel(0, 0), (110, 160, 210, 255));

    // The engine asks the embedder to run the contrast stretch, whose
    // percentage is floating-point.
    assert_eq!(engine.step(&Action::Contrast), StepOutcome::NeedsContrast);
    let img = engine.image();
    let buf = image::RgbaImage::from_raw(img.width(), img.height(), img.bytes().clone()).unwrap();
    let adjusted = image::DynamicImage::ImageRgba8(buf).adjust_contrast(5.0);
    let out = adjusted.to_rgba8();
    let (w, h) = out.dimensions();
    engine.set_image(Image::from_raw(w, h, out.into_raw()).unwrap());

    // Hand-computed: channel c maps to ((c/255 - 0.5)·p + 0.5)·255 with
    // p = ((100 + 5)/100)², clamped to the channel range and truncated.
    let percent = (105.0f32 / 100.0).powi(2);
    let expect = |c: u8| -> u8 {
        let v = ((c as f32 / 255.0 - 0.5) * percent + 0.5) * 255.0;
        let v = if v < 0.0 {
            0.0
        } else if v > 255.0 {
            255.0
        } else {
            v
        };
        v as u8
    };
    let got = engine.image().pixel(1, 1);
    assert_eq!(got, (expect(110), expect(160), expect(210), expect(255)));
}

#[test]
fn explicit_format_wins_over_extension() {
    let default = default_format("out.png");
    assert_eq!(default, OutFormat::Png);
    let actions = vec![Action::Brightness(1), Action::Format(OutFormat::Jpeg(50)), Action::Invert];
    assert_eq!(resolve_format(&actions, default), OutFormat::Jpeg(50));

    // Driving the pipeline end to end yields JPEG-encoded bytes even
    // though the output name says `.png`.
    let mut engine = engine_on(png_bytes(2, 2, [10, 20, 30, 255]));
    for a in &actions {
        assert_eq!(engine.step(a), StepOutcome::Applied);
    }
    let (img, fmt) = engine.finish(default);
    assert_eq!(fmt, OutFormat::Jpeg(50));
    let buf = image::RgbaImage::from_raw(img.width(), img.height(), img.bytes().clone()).unwrap();
    let mut encoded = Vec::new();
    let out_fmt = match fmt {
        OutFormat::Jpeg(q) => image::ImageOutputFormat::Jpeg(q),
        _ => image::ImageOutputFormat::Png,
    };
    image::DynamicImage::ImageRgba8(buf).write_to(&mut encoded, out_fmt).expect("encoding");
    assert_eq!(&encoded[0..2], &[0xFF, 0xD8]);
}

#[test]
fn last_of_several_formats_wins() {
    let actions = vec![Action::Format(OutFormat::Gif), Action::Format(OutFormat::Bmp)];
    assert_eq!(resolve_format(&actions, OutFormat::Png), OutFormat::Bmp);
    assert_eq!(resolve_format(&Vec::new(), OutFormat::Ico), OutFormat::Ico);
}

#[test]
fn append_right_pads_smaller_secondary() {
    let mut reg = Registry::new();
    let primary_name = String::from("in.png");
    let secondary_name = String::from("b.png");
    assert_eq!(reg.load(&primary_name, &png_bytes(2, 2, [1, 1, 1, 1])), LoadStatus::Loaded);
    assert_eq!(reg.load(&secondary_name, &png_bytes(1, 1, [9, 9, 9, 9])), LoadStatus::Loaded);
    let mut engine =
        Engine::new(&primary_name, reg, FontSet::new(), &Flags { lanczos3: false }).unwrap();
    let action = Action::Append(secondary_name, Direction::Right);
    assert_eq!(engine.step(&action), StepOutcome::Applied);
    let img = engine.image();
    assert_eq!((img.width(), img.height()), (3, 2));
    // The secondary image is anchored at the top edge; the gap below it
    // is transparent.
    assert_eq!(img.pixel(2, 0), (9, 9, 9, 9));
    assert_eq!(img.pixel(2, 1), (0, 0, 0, 0));
    assert_eq!(img.pixel(0, 0), (1, 1, 1, 1));
}

#[test]
fn append_of_unregistered_path_is_fatal() {
    let mut engine = engine_on(png_bytes(1, 1, [1, 1, 1, 1]));
    let before = engine.image().bytes().clone();
    let action = Action::Append(String::from("nowhere.png"), Direction::Down);
    assert_eq!(engine.step(&action), StepOutcome::MissingImage);
    assert_eq!(engine.image().bytes().as_slice(), before.as_slice());
}

#[test]
fn scale_preserves_aspect_ratio() {
    // round(original_height · w / original_width)
    assert_eq!(scale_dims(4, 2, 2, 0), (2, 1));
    assert_eq!(scale_dims(10, 3, 5, 0), (5, 2));
    assert_eq!(scale_dims(3, 10, 0, 5), (2, 5));
    assert_eq!(scale_dims(2, 2, 0, 0), (2, 2));
    assert_eq!(scale_dims(2, 2, 7, 9), (7, 9));
    // A computed dimension never falls below one pixel.
    assert_eq!(scale_dims(10000, 1, 0, 1), (10000, 1));
    assert_eq!(scale_dims(10000, 1, 1, 0), (1, 1));
}

#[test]
fn scale_resamples_to_target_dimensions() {
    let mut engine = engine_on(png_bytes(2, 2, [40, 80, 120, 255]));
    assert_eq!(engine.step(&Action::Scale(1, 0)), StepOutcome::Applied);
    let img = engine.image();
    assert_eq!((img.width(), img.height()), (1, 1));
    // A solid color survives resampling.
    assert_eq!(img.pixel(0, 0), (40, 80, 120, 255));
}

#[test]
fn scale_of_zero_zero_keeps_image() {
    let mut engine = engine_on(png_bytes(2, 2, [5, 6, 7, 8]));
    let before = engine.image().bytes().clone();
    assert_eq!(engine.step(&Action::Scale(0, 0)), StepOutcome::Applied);
    assert_eq!(engine.image().bytes().as_slice(), before.as_slice());
}

#[test]
fn flag_lookup_defaults_to_disabled() {
    assert!(!flag_is_enabled(None));
    assert!(!flag_is_enabled(Some(&false)));
    assert!(flag_is_enabled(Some(&true)));
}

#[test]
fn extension_selects_default_format() {
    assert_eq!(default_format("a.png"), OutFormat::Png);
    assert_eq!(default_format("a.jpg"), OutFormat::Jpeg(100));
    assert_eq!(default_format("a.jpeg"), OutFormat::Jpeg(100));
    assert_eq!(default_format("a.bmp"), OutFormat::Bmp);
    assert_eq!(default_format("a.gif"), OutFormat::Gif);
    assert_eq!(default_format("a.ico"), OutFormat::Ico);
    assert_eq!(default_format("stdout"), OutFormat::Png);
    assert_eq!(default_format("archive.tar.gif"), OutFormat::Gif);
    assert_eq!(default_format("noext"), OutFormat::Png);
    assert_eq!(default_format("odd.xyz"), OutFormat::Png);
    assert_eq!(default_format("trailing."), OutFormat::Png);
}

#[test]
fn format_action_does_not_touch_pixels() {
    let mut engine = engine_on(png_bytes(1, 1, [3, 3, 3, 3]));
    let before = engine.image().bytes().clone();
    assert_eq!(engine.step(&Action::Format(OutFormat::Gif)), StepOutcome::Applied);
    assert_eq!(engine.image().bytes().as_slice(), before.as_slice());
    let (_, fmt) = engine.finish(OutFormat::Png);
    assert_eq!(fmt, OutFormat::Gif);
}

#[test]
fn invert_twice_through_pipeline_is_identity() {
    let mut engine = engine_on(png_bytes(2, 2, [12, 34, 56, 200]));
    let before = engine.image().bytes().clone();
    assert_eq!(engine.step(&Action::Invert), StepOutcome::Applied);
    assert_eq!(engine.step(&Action::Invert), StepOutcome::Applied);
    assert_eq!(engine.image().bytes().as_slice(), before.as_slice());
}

#[test]
fn scale_to_unaddressable_canvas_is_refused() {
    let mut engine = engine_on(png_bytes(2, 2, [1, 2, 3, 4]));
    let before = engine.image().bytes().clone();
    assert_eq!(engine.step(&Action::Scale(u32::MAX, u32::MAX)), StepOutcome::TooLarge);
    assert_eq!(engine.image().bytes().as_slice(), before.as_slice());
}

#[test]
fn flip_twice_through_pipeline_is_identity() {
    let mut engine = engine_on(png_bytes(2, 2, [90, 91, 92, 93]));
    let before = engine.image().bytes().clone();
    for o in [Orientation::Horizontal, Orientation::Horizontal, Orientation::Vertical,
        Orientation::Vertical] {
        assert_eq!(engine.step(&Action::Flip(o)), StepOutcome::Applied);
    }
    assert_eq!(engine.image().bytes().as_slice(), before.as_slice());
}

#[test]
fn rotate_left_four_times_through_pipeline_is_identity() {
    let mut engine = engine_on(png_bytes(2, 2, [7, 8, 9, 10]));
    let before = engine.image().bytes().clone();
    for _ in 0..4 {
        assert_eq!(engine.step(&Action::Rotate(Rotation::Left)), StepOutcome::Applied);
    }
    assert_eq!(engine.image().bytes().as_slice(), before.as_slice());
    assert_eq!(engine.step(&Action::Rotate(Rotation::Down)), StepOutcome::Applied);
    assert_eq!(engine.step(&Action::Rotate(Rotation::Down)), StepOutcome::Applied);
    assert_eq!(engine.image().bytes().as_slice(), before.as_slice());
}
