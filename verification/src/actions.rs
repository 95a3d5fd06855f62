use vstd::prelude::*;

verus! {

/// Where an appended image is placed relative to the current one.
#[derive(Clone, Copy, PartialEq, Eq, Structural, Debug)]
pub enum Direction {
    Left,
    Right,
    Up,
    Down,
}

/// How far an image is turned: a quarter turn either way, or a half
/// turn.
#[derive(Clone, Copy, PartialEq, Eq, Structural, Debug)]
pub enum Rotation {
    Left,
    Right,
    Down,
}

/// The axis an image is mirrored across.
#[derive(Clone, Copy, PartialEq, Eq, Structural, Debug)]
pub enum Orientation {
    Horizontal,
    Vertical,
}

/// The output encoding; the quality parameter is carried only for JPEG.
#[derive(Clone, Copy, PartialEq, Eq, Structural, Debug)]
pub enum OutFormat {
    Png,
    Jpeg(u8),
    Gif,
    Bmp,
    Ico,
}

/// One transformation step of the pipeline, consumed in the order
/// given.
///
/// Steps whose remaining parameters are floating-point — the contrast
/// percentage, the blur and unsharpen sigma, and the watermark's
/// position and glyph scale — leave those parameters with the embedding
/// program, which performs the pixel work for them when the engine asks
/// (see `StepOutcome`).
pub enum Action {
    Invert,
    /// Contrast stretch; the percentage stays with the embedder.
    Contrast,
    Brightness(i32),
    /// Gaussian blur; the sigma stays with the embedder.
    Blur,
    /// Unsharp mask; sigma and threshold stay with the embedder.
    Unsharpen,
    Crop(u32, u32, u32, u32),
    Rotate(Rotation),
    Flip(Orientation),
    Scale(u32, u32),
    Append(String, Direction),
    /// Rasterized text; the position and glyph scale stay with the
    /// embedder, which draws only after the engine has checked the font.
    Watermark { text: String, color: (u8, u8, u8, u8), font: String },
    Format(OutFormat),
}

/// The flag set: a closed set of switches consulted by actions with a
/// quality/speed tradeoff.
#[derive(Clone, Copy, PartialEq, Eq, Structural, Debug)]
pub struct Flags {
    /// Use the slower, higher-quality resampling kernel for `Scale`.
    pub lanczos3: bool,
}

/// The fully parsed input of one pipeline run: the ordered action list
/// and the flag set.
pub struct Settings {
    pub actions: Vec<Action>,
    pub flags: Flags,
}

} // verus!
