use crate::actions::{Action, Direction, Flags, Orientation, OutFormat, Rotation};
use crate::codec::{resampled, resize};
use crate::raster::{
    appended_h, appended_v, brightened, cropped, flipped_h, flipped_v, inverted, rotated_down,
    rotated_left, rotated_right, Image, ImgView,
};
use crate::registry::{FontSet, Registry};
use vstd::prelude::*;

verus! {

/// `round(a·b / c)`, rounding half up; 0 when `c` is 0.
pub open spec fn rounded_ratio(a: int, b: int, c: int) -> int {
    if c == 0 {
        0
    } else {
        (2 * a * b + c) / (2 * c)
    }
}

/// `x`, held into the dimension range `1 ..= u32::MAX`.
pub open spec fn as_dim(x: int) -> int {
    if x < 1 {
        1
    } else if x > u32::MAX {
        u32::MAX as int
    } else {
        x
    }
}

/// The target dimensions of `Scale(w, h)` on an `ow × oh` image: a zero
/// in exactly one slot is computed from the other so that the aspect
/// ratio is preserved (rounded half up, held to the dimension range);
/// zeros in both slots keep the original dimensions.
pub open spec fn scale_target(ow: int, oh: int, w: int, h: int) -> (int, int) {
    if w == 0 && h == 0 {
        (ow, oh)
    } else if w == 0 {
        (as_dim(rounded_ratio(ow, h, oh)), h)
    } else if h == 0 {
        (w, as_dim(rounded_ratio(oh, w, ow)))
    } else {
        (w, h)
    }
}

/// `round(a·b / c)` held to the dimension range; 1 when `c` is 0.
fn ratio_dim(a: u32, b: u32, c: u32) -> (r: u32)
    ensures
        r as int == as_dim(rounded_ratio(a as int, b as int, c as int)),
{
    if c == 0 {
        return 1;
    }
    proof {
        assert(2 * (a as int) * (b as int) + (c as int) <= u128::MAX && 2 * (a as int) * (b as int)
            >= 0) by (nonlinear_arith)
            requires a <= u32::MAX, b <= u32::MAX, c <= u32::MAX;
    }
    let num: u128 = 2u128 * (a as u128) * (b as u128) + (c as u128);
    let den: u128 = 2u128 * (c as u128);
    let q: u128 = num / den;
    proof {
        assert(num as int == 2 * (a as int) * (b as int) + (c as int)) by (nonlinear_arith)
            requires
                num == 2u128 * (a as u128) * (b as u128) + (c as u128),
                a <= u32::MAX,
                b <= u32::MAX,
                c <= u32::MAX,
        ;
        assert(q as int == rounded_ratio(a as int, b as int, c as int));
    }
    if q < 1 {
        1
    } else if q > u32::MAX as u128 {
        u32::MAX
    } else {
        q as u32
    }
}

/// Computes the target dimensions of `Scale(w, h)` on an `ow × oh`
/// image: a zero in exactly one slot preserves the aspect ratio.
pub fn scale_dims(ow: u32, oh: u32, w: u32, h: u32) -> (r: (u32, u32))
    ensures
        r.0 as int == scale_target(ow as int, oh as int, w as int, h as int).0,
        r.1 as int == scale_target(ow as int, oh as int, w as int, h as int).1,
{
    if w == 0 && h == 0 {
        (ow, oh)
    } else if w == 0 {
        (ratio_dim(ow, h, oh), h)
    } else if h == 0 {
        (w, ratio_dim(oh, w, ow))
    } else {
        (w, h)
    }
}

/// The view after `Scale(w, h)` on a non-empty image: the target
/// dimensions, with the buffer resampled by the selected filter.
pub open spec fn scaled(v: ImgView, w: int, h: int, lanczos: bool) -> ImgView {
    let t = scale_target(v.width, v.height, w, h);
    ImgView { width: t.0, height: t.1, data: resampled(v.data, v.width, v.height, t.0, t.1, lanczos) }
}

/// The view after appending `other` to `cur` in the given direction:
/// `Left` and `Up` put the secondary image before the current one.
pub open spec fn appended_in(cur: ImgView, other: ImgView, dir: Direction) -> ImgView {
    match dir {
        Direction::Right => appended_h(cur, other),
        Direction::Left => appended_h(other, cur),
        Direction::Down => appended_v(cur, other),
        Direction::Up => appended_v(other, cur),
    }
}

/// Whether the appended canvas is addressable on this machine.
pub open spec fn append_fits(cur: ImgView, other: ImgView, dir: Direction) -> bool {
    match dir {
        Direction::Right | Direction::Left => appended_in(cur, other, dir).width <= u32::MAX
            && appended_in(cur, other, dir).data.len() <= usize::MAX,
        Direction::Down | Direction::Up => appended_in(cur, other, dir).height <= u32::MAX
            && appended_in(cur, other, dir).data.len() <= usize::MAX,
    }
}

/// Whether the scaled canvas is addressable on this machine.
pub open spec fn scale_fits(v: ImgView, w: int, h: int) -> bool {
    4 * scale_target(v.width, v.height, w, h).0 * scale_target(v.width, v.height, w, h).1
        <= usize::MAX
}

/// What one step of the pipeline asks of its embedder.
#[derive(Clone, Copy, PartialEq, Eq, Structural, Debug)]
pub enum StepOutcome {
    /// The action was applied in full; the engine's state is updated.
    Applied,
    /// The action is a contrast stretch, whose percentage is
    /// floating-point: the embedder must apply it to the engine's image.
    NeedsContrast,
    /// The action is a Gaussian blur, whose sigma is floating-point:
    /// the embedder must apply it to the engine's image.
    NeedsBlur,
    /// The action is an unsharp mask, whose sigma is floating-point:
    /// the embedder must apply it to the engine's image.
    NeedsUnsharpen,
    /// The action is watermark text and its font parses: the embedder
    /// must rasterize the glyphs onto the engine's image.
    NeedsText,
    /// The action appends a path that the registry does not hold: fatal,
    /// since the pipeline's semantics would be ill-defined without it.
    MissingImage,
    /// The transformed canvas would not be addressable on this machine;
    /// the image is left untouched.
    TooLarge,
}

/// The action pipeline executor: owns the current image, consumes
/// actions in order, and records the explicitly requested output
/// encoding.
pub struct Engine {
    image: Image,
    chosen: Option<OutFormat>,
    images: Registry,
    fonts: FontSet,
    lanczos: bool,
}

impl Engine {
    /// The current image.
    pub closed spec fn img(self) -> ImgView {
        self.image@
    }

    /// The encoding requested by the `Format` actions seen so far; the
    /// last one wins.
    pub closed spec fn chosen_spec(self) -> Option<OutFormat> {
        self.chosen
    }

    pub closed spec fn registry(self) -> Registry {
        self.images
    }

    pub closed spec fn fontset(self) -> FontSet {
        self.fonts
    }

    pub closed spec fn lanczos_spec(self) -> bool {
        self.lanczos
    }

    pub closed spec fn wf(self) -> bool {
        self.image@.wf() && self.images.wf() && self.fonts.wf()
    }

    /// Starts a pipeline on the image registered for the input path;
    /// yields nothing when that path is not in the registry (a fatal
    /// condition for the run).
    pub fn new(input: &String, images: Registry, fonts: FontSet, flags: &Flags) -> (r: Option<
        Engine,
    >)
        requires
            images.wf(),
            fonts.wf(),
        ensures
            r is Some <==> images.contains_path(input@),
            r is Some ==> r->0.wf() && r->0.img() == images.img_at(input@) && r->0.chosen_spec()
                is None && r->0.registry() == images && r->0.fontset() == fonts
                && r->0.lanczos_spec() == flags.lanczos3,
    {
        let initial = match images.get(input) {
            Some(img) => img.duplicate(),
            None => {
                return None;
            },
        };
        Some(
            Engine {
                image: initial,
                chosen: None,
                images,
                fonts,
                lanczos: flags.lanczos3,
            },
        )
    }

    /// The current image, for the embedder to read or hand to the pixel
    /// work the engine asked of it.
    pub fn image(&self) -> (r: &Image)
        ensures
            r@ == self.img(),
    {
        &self.image
    }

    /// Replaces the current image: how the embedder hands back the
    /// result of pixel work the engine asked of it.
    pub fn set_image(&mut self, img: Image)
        requires
            old(self).wf(),
            img@.wf(),
        ensures
            final(self).wf(),
            final(self).img() == img@,
            final(self).chosen_spec() == old(self).chosen_spec(),
            final(self).registry() == old(self).registry(),
            final(self).fontset() == old(self).fontset(),
            final(self).lanczos_spec() == old(self).lanczos_spec(),
    {
        self.image = img;
    }

    /// Ends the pipeline: the final image, and the resolved encoding —
    /// the last explicitly requested one, or the default.
    pub fn finish(self, default: OutFormat) -> (r: (Image, OutFormat))
        ensures
            r.0@ == self.img(),
            r.1 == match self.chosen_spec() {
                Some(f) => f,
                None => default,
            },
    {
        let f = match self.chosen {
            Some(f) => f,
            None => default,
        };
        (self.image, f)
    }

    /// Applies one action to the current image.  Everything whose
    /// parameters the engine holds is applied here; the floating-point
    /// pixel work is asked of the embedder through the outcome, with the
    /// image left untouched for it.
    pub fn step(&mut self, action: &Action) -> (r: StepOutcome)
        requires
            old(self).wf(),
        ensures
            final(self).wf(),
            final(self).registry() == old(self).registry(),
            final(self).fontset() == old(self).fontset(),
            final(self).lanczos_spec() == old(self).lanczos_spec(),
            match *action {
                Action::Invert => r == StepOutcome::Applied && final(self).img() == inverted(
                    old(self).img(),
                ) && final(self).chosen_spec() == old(self).chosen_spec(),
                Action::Contrast => r == StepOutcome::NeedsContrast && final(self).img() == old(
                    self,
                ).img() && final(self).chosen_spec() == old(self).chosen_spec(),
                Action::Blur => r == StepOutcome::NeedsBlur && final(self).img() == old(self).img()
                    && final(self).chosen_spec() == old(self).chosen_spec(),
                Action::Unsharpen => r == StepOutcome::NeedsUnsharpen && final(self).img() == old(
                    self,
                ).img() && final(self).chosen_spec() == old(self).chosen_spec(),
                Action::Brightness(d) => r == StepOutcome::Applied && final(self).img()
                    == brightened(old(self).img(), d as int) && final(self).chosen_spec() == old(
                    self,
                ).chosen_spec(),
                Action::Crop(cx, cy, cw, ch) => r == StepOutcome::Applied && final(self).img()
                    == cropped(old(self).img(), cx as int, cy as int, cw as int, ch as int)
                    && final(self).chosen_spec() == old(self).chosen_spec(),
                Action::Rotate(rot) => r == StepOutcome::Applied && final(self).img() == (match rot {
                    Rotation::Left => rotated_left(old(self).img()),
                    Rotation::Right => rotated_right(old(self).img()),
                    Rotation::Down => rotated_down(old(self).img()),
                }) && final(self).chosen_spec() == old(self).chosen_spec(),
                Action::Flip(o) => r == StepOutcome::Applied && final(self).img() == (match o {
                    Orientation::Horizontal => flipped_h(old(self).img()),
                    Orientation::Vertical => flipped_v(old(self).img()),
                }) && final(self).chosen_spec() == old(self).chosen_spec(),
                Action::Scale(w, h) => final(self).chosen_spec() == old(self).chosen_spec() && (
                if w == 0 && h == 0 {
                    r == StepOutcome::Applied && final(self).img() == old(self).img()
                } else if old(self).img().width == 0 || old(self).img().height == 0 {
                    r == StepOutcome::Applied && final(self).img() == old(self).img()
                } else if !scale_fits(old(self).img(), w as int, h as int) {
                    r == StepOutcome::TooLarge && final(self).img() == old(self).img()
                } else {
                    r == StepOutcome::Applied && final(self).img() == scaled(
                        old(self).img(),
                        w as int,
                        h as int,
                        old(self).lanczos_spec(),
                    )
                }),
                Action::Append(ref path, dir) => final(self).chosen_spec() == old(
                    self,
                ).chosen_spec() && (if !old(self).registry().contains_path(path@) {
                    r == StepOutcome::MissingImage && final(self).img() == old(self).img()
                } else if !append_fits(
                    old(self).img(),
                    old(self).registry().img_at(path@),
                    dir,
                ) {
                    r == StepOutcome::TooLarge && final(self).img() == old(self).img()
                } else {
                    r == StepOutcome::Applied && final(self).img() == appended_in(
                        old(self).img(),
                        old(self).registry().img_at(path@),
                        dir,
                    )
                }),
                Action::Watermark { font: ref font, .. } => final(self).chosen_spec() == old(
                    self,
                ).chosen_spec() && final(self).img() == old(self).img() && (if old(
                    self,
                ).fontset().usable_font(font@) {
                    r == StepOutcome::NeedsText
                } else {
                    r == StepOutcome::Applied
                }),
                Action::Format(f) => r == StepOutcome::Applied && final(self).img() == old(
                    self,
                ).img() && final(self).chosen_spec() == Some(f),
            },
    {
        match action {
            Action::Invert => {
                let ni = self.image.invert();
                self.image = ni;
                StepOutcome::Applied
            },
            Action::Contrast => StepOutcome::NeedsContrast,
            Action::Blur => StepOutcome::NeedsBlur,
            Action::Unsharpen => StepOutcome::NeedsUnsharpen,
            Action::Brightness(d) => {
                let ni = self.image.brighten(*d);
                self.image = ni;
                StepOutcome::Applied
            },
            Action::Crop(cx, cy, cw, ch) => {
                let ni = self.image.crop(*cx, *cy, *cw, *ch);
                self.image = ni;
                StepOutcome::Applied
            },
            Action::Rotate(rot) => {
                let ni = match rot {
                    Rotation::Left => self.image.rotate_left(),
                    Rotation::Right => self.image.rotate_right(),
                    Rotation::Down => self.image.rotate_down(),
                };
                self.image = ni;
                StepOutcome::Applied
            },
            Action::Flip(o) => {
                let ni = match o {
                    Orientation::Horizontal => self.image.flip_horizontal(),
                    Orientation::Vertical => self.image.flip_vertical(),
                };
                self.image = ni;
                StepOutcome::Applied
            },
            Action::Scale(w, h) => {
                if *w == 0 && *h == 0 {
                    return StepOutcome::Applied;
                }
                let ow = self.image.width();
                let oh = self.image.height();
                if ow == 0 || oh == 0 {
                    return StepOutcome::Applied;
                }
                let (tw, th) = scale_dims(ow, oh, *w, *h);
                proof {
                    assert(4 * (tw as int) * (th as int) <= u128::MAX) by (nonlinear_arith)
                        requires tw <= u32::MAX, th <= u32::MAX;
                }
                let total: u128 = 4u128 * (tw as u128) * (th as u128);
                proof {
                    assert(total as int == 4 * (tw as int) * (th as int)) by (nonlinear_arith)
                        requires
                            total == 4u128 * (tw as u128) * (th as u128),
                            tw <= u32::MAX,
                            th <= u32::MAX,
                    ;
                }
                if total > usize::MAX as u128 {
                    return StepOutcome::TooLarge;
                }
                let ni = resize(&self.image, tw, th, self.lanczos);
                self.image = ni;
                StepOutcome::Applied
            },
            Action::Append(path, dir) => {
                let found = match self.images.get(path) {
                    Some(other) => {
                        match dir {
                            Direction::Right => Image::append_horizontal(&self.image, other),
                            Direction::Left => Image::append_horizontal(other, &self.image),
                            Direction::Down => Image::append_vertical(&self.image, other),
                            Direction::Up => Image::append_vertical(other, &self.image),
                        }
                    },
                    None => {
                        return StepOutcome::MissingImage;
                    },
                };
                match found {
                    Some(ni) => {
                        self.image = ni;
                        StepOutcome::Applied
                    },
                    None => StepOutcome::TooLarge,
                }
            },
            Action::Watermark { font, .. } => {
                if self.fonts.usable(font) {
                    StepOutcome::NeedsText
                } else {
                    StepOutcome::Applied
                }
            },
            Action::Format(f) => {
                self.chosen = Some(*f);
                StepOutcome::Applied
            },
        }
    }
}

} // verus!
