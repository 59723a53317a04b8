//! Deterministic Gray8 framebuffer storage and drawing primitives.

use vstd::prelude::*;
use vstd::arithmetic::div_mod::{
    lemma_fundamental_div_mod, lemma_fundamental_div_mod_converse, lemma_div_pos_is_pos,
};

use crate::display::{Point, Rect, Size, rect};
use crate::rendering::{decimal_text, push_decimal};
use vstd::string::StringExecFns;

verus! {

/// An eight-bit grayscale value where 0 is black and 255 is white.
#[derive(Clone, Copy, Debug, Default, PartialEq, Eq, Structural)]
pub struct Gray8(pub u8);

impl Gray8 {
    /// Fully black ink.
    pub fn black() -> (g: Gray8)
        ensures
            g == Gray8(0),
    {
        Gray8(0)
    }

    /// Fully white background.
    pub fn white() -> (g: Gray8)
        ensures
            g == Gray8(255),
    {
        Gray8(255)
    }
}

/// A clockwise framebuffer rotation.
#[derive(Clone, Copy, Debug, Default, PartialEq, Eq, Structural)]
pub enum Rotation {
    /// Preserve source orientation.
    #[default]
    Upright,
    /// Rotate 90 degrees clockwise.
    Clockwise90,
    /// Rotate 180 degrees.
    Clockwise180,
    /// Rotate 270 degrees clockwise.
    Clockwise270,
}

impl Rotation {
    pub open spec fn spec_output_size(self, input: Size) -> Size {
        match self {
            Rotation::Upright | Rotation::Clockwise180 => input,
            Rotation::Clockwise90 | Rotation::Clockwise270 => Size {
                width: input.height,
                height: input.width,
            },
        }
    }

    /// Returns the output size after applying this rotation.
    pub fn output_size(self, input: Size) -> (r: Size)
        ensures
            r == self.spec_output_size(input),
    {
        match self {
            Rotation::Upright | Rotation::Clockwise180 => input,
            Rotation::Clockwise90 | Rotation::Clockwise270 => Size::new(input.height, input.width),
        }
    }
}

/// Framebuffer construction failure.
#[derive(Clone, Debug, PartialEq, Eq, Structural)]
pub enum GraphicsError {
    /// Dimensions are empty or their pixel count overflows.
    InvalidSize(Size),
    /// A provided pixel vector does not match the framebuffer dimensions.
    BufferLength {
        /// Required number of Gray8 pixels.
        expected: usize,
        /// Supplied number of Gray8 pixels.
        actual: usize,
    },
}

/// The description of a framebuffer construction failure.
pub open spec fn graphics_error_text(e: GraphicsError) -> Seq<char> {
    match e {
        GraphicsError::InvalidSize(size) => "framebuffer size "@ + decimal_text(size.width as nat) + "×"@
            + decimal_text(size.height as nat) + " is empty or overflows address space"@,
        GraphicsError::BufferLength { expected, actual } => "expected "@ + decimal_text(expected as nat)
            + " pixels, received "@ + decimal_text(actual as nat),
    }
}

impl GraphicsError {
    /// A human-readable description of the failure.
    pub fn message(&self) -> (r: String)
        ensures
            r@ == graphics_error_text(*self),
    {
        match self {
            GraphicsError::InvalidSize(size) => {
                let mut text = String::from_str("framebuffer size ");
                push_decimal(&mut text, size.width as u64);
                text.append("×");
                push_decimal(&mut text, size.height as u64);
                text.append(" is empty or overflows address space");
                text
            },
            GraphicsError::BufferLength { expected, actual } => {
                let mut text = String::from_str("expected ");
                push_decimal(&mut text, *expected as u64);
                text.append(" pixels, received ");
                push_decimal(&mut text, *actual as u64);
                text
            },
        }
    }
}

/// Whether a framebuffer of this size can exist: non-empty, and its pixel
/// count fits in a `u32`.
pub open spec fn valid_frame_size(size: Size) -> bool {
    !size.spec_is_empty() && size.area() <= u32::MAX
}

/// The coordinates of row-major index `i` in a frame of this width.
pub open spec fn point_at(i: int, width: u32) -> Point {
    Point { x: (i % (width as int)) as u32, y: (i / (width as int)) as u32 }
}

/// The row-major index of a point.
pub open spec fn index_of(p: Point, width: u32) -> int {
    p.y * width + p.x
}

/// Every pixel of `pixels` inside `region` mapped by `f`; the rest unchanged.
pub open spec fn paint(pixels: Seq<u8>, width: u32, region: Rect, f: spec_fn(u8) -> u8) -> Seq<u8> {
    Seq::new(
        pixels.len(),
        |i: int|
            if region.spec_contains(point_at(i, width)) {
                f(pixels[i])
            } else {
                pixels[i]
            },
    )
}

/// Every pixel of `pixels` inside `region` set to `color`.
pub open spec fn fill(pixels: Seq<u8>, width: u32, region: Rect, color: u8) -> Seq<u8> {
    paint(pixels, width, region, |d: u8| color)
}

/// `ink` composited over `dest` with `coverage / 255` opacity, rounded to nearest.
pub open spec fn blend_value(ink: u8, coverage: u8, dest: u8) -> u8 {
    ((ink * coverage + dest * (255 - coverage) + 127) / 255) as u8
}

/// Every pixel of `pixels` inside `region` blended with `ink`.
pub open spec fn blend(pixels: Seq<u8>, width: u32, region: Rect, ink: u8, coverage: u8) -> Seq<u8> {
    paint(pixels, width, region, |d: u8| blend_value(ink, coverage, d))
}

/// The four edge bands of an inward stroke, painted top, bottom, left, right.
pub open spec fn stroke(pixels: Seq<u8>, width: u32, r: Rect, stroke_width: u32, color: u8) -> Seq<u8> {
    if stroke_width == 0 || r.size.spec_is_empty() {
        pixels
    } else {
        let w = crate::display::min_u32(
            crate::display::min_u32(stroke_width, r.size.width),
            r.size.height,
        );
        let top = rect(r.origin.x, r.origin.y, r.size.width, w);
        let bottom = rect(r.origin.x, crate::display::sat_sub(r.spec_bottom(), w), r.size.width, w);
        let left = rect(r.origin.x, r.origin.y, w, r.size.height);
        let right = rect(crate::display::sat_sub(r.spec_right(), w), r.origin.y, w, r.size.height);
        fill(fill(fill(fill(pixels, width, top, color), width, bottom, color), width, left, color), width, right, color)
    }
}

/// A fill paints exactly the pixels of the half-open rectangle and leaves
/// every other pixel as it was.
pub proof fn lemma_fill_paints_exactly_the_rect(pixels: Seq<u8>, width: u32, r: Rect, color: u8)
    requires
        r.origin.x + r.size.width <= u32::MAX,
        r.origin.y + r.size.height <= u32::MAX,
    ensures
        fill(pixels, width, r, color).len() == pixels.len(),
        forall|i: int|
            0 <= i < pixels.len() ==> {
                let p = point_at(i, width);
                #[trigger] fill(pixels, width, r, color)[i] == if r.origin.x <= p.x < r.origin.x + r.size.width
                    && r.origin.y <= p.y < r.origin.y + r.size.height {
                    color
                } else {
                    pixels[i]
                }
            },
{
}

/// Blending is a weighted mean of ink and destination: no coverage keeps
/// the destination, full coverage gives the ink, and any coverage gives a
/// value between the two.
pub proof fn lemma_blend_is_a_weighted_mean(ink: u8, coverage: u8, dest: u8)
    ensures
        coverage == 0 ==> blend_value(ink, coverage, dest) == dest,
        coverage == 255 ==> blend_value(ink, coverage, dest) == ink,
        ink <= dest ==> ink <= blend_value(ink, coverage, dest) <= dest,
        dest <= ink ==> dest <= blend_value(ink, coverage, dest) <= ink,
{
    let total = ink * coverage + dest * (255 - coverage) + 127;
    if coverage == 255 {
        assert(total == ink * 255 + 127) by (nonlinear_arith)
            requires
                coverage == 255,
                total == ink * coverage + dest * (255 - coverage) + 127,
        ;
        assert((ink * 255 + 127) / 255 == ink as int) by (nonlinear_arith);
    }
    if coverage == 0 {
        assert(total == dest * 255 + 127) by (nonlinear_arith)
            requires
                coverage == 0,
                total == ink * coverage + dest * (255 - coverage) + 127,
        ;
        assert((dest * 255 + 127) / 255 == dest as int) by (nonlinear_arith);
    }
    if ink <= dest {
        assert(ink * 255 + 127 <= total <= dest * 255 + 127) by (nonlinear_arith)
            requires
                ink <= dest,
                0 <= coverage <= 255,
                total == ink * coverage + dest * (255 - coverage) + 127,
        ;
    } else {
        assert(dest * 255 + 127 <= total <= ink * 255 + 127) by (nonlinear_arith)
            requires
                dest <= ink,
                0 <= coverage <= 255,
                total == ink * coverage + dest * (255 - coverage) + 127,
        ;
    }
}

/// An inward stroke paints exactly the pixels of the rectangle that lie
/// closer to one of its edges than the stroke width, capped at the
/// rectangle's width and height, and leaves every other pixel as it was.
pub proof fn lemma_stroke_paints_inner_bands(pixels: Seq<u8>, width: u32, r: Rect, stroke_width: u32, color: u8)
    requires
        r.origin.x + r.size.width <= u32::MAX,
        r.origin.y + r.size.height <= u32::MAX,
    ensures
        stroke(pixels, width, r, stroke_width, color).len() == pixels.len(),
        forall|i: int|
            0 <= i < pixels.len() ==> {
                let p = point_at(i, width);
                let w = if stroke_width <= r.size.width && stroke_width <= r.size.height {
                    stroke_width as int
                } else if r.size.width <= r.size.height {
                    r.size.width as int
                } else {
                    r.size.height as int
                };
                let inside = r.origin.x <= p.x < r.origin.x + r.size.width && r.origin.y <= p.y < r.origin.y
                    + r.size.height;
                let near_edge = p.x - r.origin.x < w || r.origin.x + r.size.width - p.x <= w || p.y - r.origin.y < w
                    || r.origin.y + r.size.height - p.y <= w;
                #[trigger] stroke(pixels, width, r, stroke_width, color)[i] == if inside && near_edge {
                    color
                } else {
                    pixels[i]
                }
            },
{
}

/// The row-major source index that lands on output index `j` under `rotation`.
pub open spec fn rotation_source(rotation: Rotation, size: Size, j: int) -> int {
    let out = rotation.spec_output_size(size);
    let dx = j % (out.width as int);
    let dy = j / (out.width as int);
    let w = size.width as int;
    let h = size.height as int;
    match rotation {
        Rotation::Upright => j,
        Rotation::Clockwise90 => (h - 1 - dx) * w + dy,
        Rotation::Clockwise180 => (h - 1 - dy) * w + (w - 1 - dx),
        Rotation::Clockwise270 => dx * w + (w - 1 - dy),
    }
}

/// The pixels of a `size` frame after rotation.
pub open spec fn rotate(pixels: Seq<u8>, size: Size, rotation: Rotation) -> Seq<u8> {
    Seq::new(pixels.len(), |j: int| pixels[rotation_source(rotation, size, j)])
}

/// Row-major coordinates round-trip through indices.
pub proof fn lemma_coords(x: int, y: int, w: int)
    requires
        0 <= x < w,
        0 <= y,
    ensures
        (y * w + x) % w == x,
        (y * w + x) / w == y,
{
    lemma_fundamental_div_mod_converse(y * w + x, w, y, x);
}

/// An index decomposes into its coordinates.
pub proof fn lemma_index_decomposes(i: int, w: int)
    requires
        0 <= i,
        0 < w,
    ensures
        i == (i / w) * w + i % w,
        0 <= i % w < w,
        0 <= i / w,
{
    lemma_fundamental_div_mod(i, w);
    lemma_div_pos_is_pos(i, w);
    vstd::arithmetic::mul::lemma_mul_is_commutative(w, i / w);
}

/// A point inside a `w × h` frame has an index inside the frame.
pub proof fn lemma_index_in_frame(x: int, y: int, w: int, h: int)
    requires
        0 <= x < w,
        0 <= y < h,
    ensures
        0 <= y * w + x < w * h,
{
    assert(0 <= y * w + x < w * h) by (nonlinear_arith)
        requires
            0 <= x < w,
            0 <= y < h,
    ;
}

/// An index inside a `w × h` frame has coordinates inside the frame.
pub proof fn lemma_coords_in_frame(i: int, w: int, h: int)
    requires
        0 <= i < w * h,
        0 < w,
    ensures
        0 <= i % w < w,
        0 <= i / w < h,
{
    lemma_index_decomposes(i, w);
    if i / w >= h {
        assert((i / w) * w >= w * h) by (nonlinear_arith)
            requires
                i / w >= h,
                w > 0,
        ;
        assert(false);
    }
}

/// Where each pixel goes: a clockwise quarter turn moves pixel `(x, y)` of
/// a `w x h` frame to `(h - 1 - y, x)`, a half turn to
/// `(w - 1 - x, h - 1 - y)`, three quarter turns to `(y, w - 1 - x)`, and
/// the upright rotation leaves it in place.
pub proof fn lemma_rotation_destinations(pixels: Seq<u8>, size: Size, x: int, y: int)
    requires
        valid_frame_size(size),
        pixels.len() == size.area(),
        0 <= x < size.width,
        0 <= y < size.height,
    ensures
        ({
            let w = size.width as int;
            let h = size.height as int;
            &&& rotate(pixels, size, Rotation::Clockwise90)[x * h + (h - 1 - y)] == pixels[y * w + x]
            &&& rotate(pixels, size, Rotation::Clockwise180)[(h - 1 - y) * w + (w - 1 - x)] == pixels[y * w + x]
            &&& rotate(pixels, size, Rotation::Clockwise270)[(w - 1 - x) * h + y] == pixels[y * w + x]
            &&& rotate(pixels, size, Rotation::Upright)[y * w + x] == pixels[y * w + x]
        }),
{
    let w = size.width as int;
    let h = size.height as int;
    assert(h * w == w * h) by (nonlinear_arith);
    lemma_index_in_frame(h - 1 - y, x, h, w);
    lemma_coords(h - 1 - y, x, h);
    lemma_index_in_frame(w - 1 - x, h - 1 - y, w, h);
    lemma_coords(w - 1 - x, h - 1 - y, w);
    lemma_index_in_frame(y, w - 1 - x, h, w);
    lemma_coords(y, w - 1 - x, h);
    lemma_index_in_frame(x, y, w, h);
}

/// Rotating clockwise by 90 degrees and then by 270 degrees restores the
/// original pixels.
pub proof fn lemma_rotate_quarter_turns_cancel(pixels: Seq<u8>, size: Size)
    requires
        valid_frame_size(size),
        pixels.len() == size.area(),
    ensures
        rotate(
            rotate(pixels, size, Rotation::Clockwise90),
            Rotation::Clockwise90.spec_output_size(size),
            Rotation::Clockwise270,
        ) == pixels,
{
    let w = size.width as int;
    let h = size.height as int;
    let turned = Rotation::Clockwise90.spec_output_size(size);
    let once = rotate(pixels, size, Rotation::Clockwise90);
    let twice = rotate(once, turned, Rotation::Clockwise270);
    assert forall|k: int| 0 <= k < pixels.len() implies #[trigger] twice[k] == pixels[k] by {
        lemma_coords_in_frame(k, w, h);
        let dx = k % w;
        let dy = k / w;
        let m = dx * h + (h - 1 - dy);
        assert(m == rotation_source(Rotation::Clockwise270, turned, k));
        lemma_index_in_frame(h - 1 - dy, dx, h, w);
        assert(h * w == w * h) by (nonlinear_arith);
        lemma_coords(h - 1 - dy, dx, h);
        assert(rotation_source(Rotation::Clockwise90, size, m) == dy * w + dx);
        lemma_index_decomposes(k, w);
    }
    assert(twice =~= pixels);
}

/// Rotating clockwise by 270 degrees and then by 90 degrees restores the
/// original pixels.
pub proof fn lemma_rotate_quarter_turns_cancel_back(pixels: Seq<u8>, size: Size)
    requires
        valid_frame_size(size),
        pixels.len() == size.area(),
    ensures
        rotate(
            rotate(pixels, size, Rotation::Clockwise270),
            Rotation::Clockwise270.spec_output_size(size),
            Rotation::Clockwise90,
        ) == pixels,
{
    let w = size.width as int;
    let h = size.height as int;
    let turned = Rotation::Clockwise270.spec_output_size(size);
    let once = rotate(pixels, size, Rotation::Clockwise270);
    let twice = rotate(once, turned, Rotation::Clockwise90);
    assert forall|k: int| 0 <= k < pixels.len() implies #[trigger] twice[k] == pixels[k] by {
        lemma_coords_in_frame(k, w, h);
        let dx = k % w;
        let dy = k / w;
        let m = (w - 1 - dx) * h + dy;
        assert(m == rotation_source(Rotation::Clockwise90, turned, k));
        lemma_index_in_frame(dy, w - 1 - dx, h, w);
        assert(h * w == w * h) by (nonlinear_arith);
        lemma_coords(dy, w - 1 - dx, h);
        assert(rotation_source(Rotation::Clockwise270, size, m) == dy * w + dx);
        lemma_index_decomposes(k, w);
    }
    assert(twice =~= pixels);
}

/// Two clockwise quarter turns make a half turn.
pub proof fn lemma_two_quarter_turns_make_a_half_turn(pixels: Seq<u8>, size: Size)
    requires
        valid_frame_size(size),
        pixels.len() == size.area(),
    ensures
        rotate(
            rotate(pixels, size, Rotation::Clockwise90),
            Rotation::Clockwise90.spec_output_size(size),
            Rotation::Clockwise90,
        ) == rotate(pixels, size, Rotation::Clockwise180),
{
    let w = size.width as int;
    let h = size.height as int;
    let turned = Rotation::Clockwise90.spec_output_size(size);
    let once = rotate(pixels, size, Rotation::Clockwise90);
    let twice = rotate(once, turned, Rotation::Clockwise90);
    let half = rotate(pixels, size, Rotation::Clockwise180);
    assert forall|k: int| 0 <= k < pixels.len() implies #[trigger] twice[k] == half[k] by {
        lemma_coords_in_frame(k, w, h);
        let dx = k % w;
        let dy = k / w;
        let m = (w - 1 - dx) * h + dy;
        assert(m == rotation_source(Rotation::Clockwise90, turned, k));
        lemma_index_in_frame(dy, w - 1 - dx, h, w);
        assert(h * w == w * h) by (nonlinear_arith);
        lemma_coords(dy, w - 1 - dx, h);
        assert(rotation_source(Rotation::Clockwise90, size, m) == (h - 1 - dy) * w + (w - 1 - dx));
    }
    assert(twice =~= half);
}

/// The upright rotation keeps every pixel in place.
pub proof fn lemma_upright_keeps_pixels(pixels: Seq<u8>, size: Size)
    ensures
        rotate(pixels, size, Rotation::Upright) == pixels,
{
    assert(rotate(pixels, size, Rotation::Upright) =~= pixels);
}

/// Two half turns restore the original pixels.
pub proof fn lemma_rotate_half_turns_cancel(pixels: Seq<u8>, size: Size)
    requires
        valid_frame_size(size),
        pixels.len() == size.area(),
    ensures
        rotate(rotate(pixels, size, Rotation::Clockwise180), size, Rotation::Clockwise180) == pixels,
{
    let w = size.width as int;
    let h = size.height as int;
    let once = rotate(pixels, size, Rotation::Clockwise180);
    let twice = rotate(once, size, Rotation::Clockwise180);
    assert forall|k: int| 0 <= k < pixels.len() implies #[trigger] twice[k] == pixels[k] by {
        lemma_coords_in_frame(k, w, h);
        let dx = k % w;
        let dy = k / w;
        let m = (h - 1 - dy) * w + (w - 1 - dx);
        lemma_index_in_frame(w - 1 - dx, h - 1 - dy, w, h);
        lemma_coords(w - 1 - dx, h - 1 - dy, w);
        lemma_index_decomposes(k, w);
    }
    assert(twice =~= pixels);
}

/// `pixels` with `region` replaced by rows of `source` that start `stride`
/// bytes apart.
pub open spec fn blit(pixels: Seq<u8>, width: u32, region: Rect, source: Seq<u8>, stride: int) -> Seq<u8> {
    Seq::new(
        pixels.len(),
        |i: int|
            {
                let p = point_at(i, width);
                if region.spec_contains(p) {
                    source[(p.y - region.origin.y) * stride + (p.x - region.origin.x)]
                } else {
                    pixels[i]
                }
            },
    )
}

/// The canonical render target.
///
/// PaperOS renders to Gray8 for predictable typography and converts to a
/// controller-specific packed format only at the display boundary.
#[derive(Debug, PartialEq, Eq)]
pub struct Framebuffer {
    size: Size,
    pixels: Vec<u8>,
}

impl View for Framebuffer {
    type V = Seq<u8>;

    /// Row-major Gray8 pixels.
    closed spec fn view(&self) -> Seq<u8> {
        self.pixels@
    }
}

impl Clone for Framebuffer {
    /// A frame of the same size with the same pixels.
    fn clone(&self) -> (r: Framebuffer)
        ensures
            r.spec_size() == self.spec_size(),
            r@ == self@,
    {
        let pixels = self.pixels.clone();
        proof {
            assert forall|i: int| 0 <= i < pixels@.len() implies pixels@[i] == self.pixels@[i] by {
                assert(cloned::<u8>(self.pixels[i], pixels[i]));
            }
            assert(pixels@ =~= self.pixels@);
        }
        Framebuffer { size: self.size, pixels }
    }
}

/// The painting operation applied to each pixel of a region.
enum Paint {
    Fill(u8),
    Blend { ink: u8, coverage: u8 },
}

spec fn paint_fn(op: Paint) -> spec_fn(u8) -> u8 {
    match op {
        Paint::Fill(c) => |d: u8| c,
        Paint::Blend { ink, coverage } => |d: u8| blend_value(ink, coverage, d),
    }
}

fn paint_pixel(op: &Paint, dest: u8) -> (r: u8)
    ensures
        r == (paint_fn(*op))(dest),
{
    match op {
        Paint::Fill(c) => *c,
        Paint::Blend { ink, coverage } => {
            let alpha = *coverage as u32;
            let inverse = (255 - *coverage) as u32;
            let ink32 = *ink as u32;
            let dest32 = dest as u32;
            proof {
                assert(ink32 * alpha <= 255 * 255) by (nonlinear_arith)
                    requires
                        ink32 <= 255,
                        alpha <= 255,
                ;
                assert(dest32 * inverse <= 255 * 255) by (nonlinear_arith)
                    requires
                        dest32 <= 255,
                        inverse <= 255,
                ;
                assert(ink32 * alpha + dest32 * inverse <= 255 * 255) by (nonlinear_arith)
                    requires
                        alpha + inverse == 255,
                        ink32 <= 255,
                        dest32 <= 255,
                ;
            }
            let blended = (ink32 * alpha + dest32 * inverse + 127) / 255;
            blended as u8
        },
    }
}

impl Framebuffer {
    pub closed spec fn spec_size(&self) -> Size {
        self.size
    }

    /// The framebuffer invariant: a valid size and one byte per pixel.
    pub open spec fn wf(&self) -> bool {
        &&& valid_frame_size(self.spec_size())
        &&& self@.len() == self.spec_size().area()
    }

    /// Allocates a framebuffer filled with `background`.
    pub fn new(size: Size, background: Gray8) -> (r: Result<Framebuffer, GraphicsError>)
        ensures
            match r {
                Ok(frame) => valid_frame_size(size) && frame.wf() && frame.spec_size() == size
                    && frame@ == Seq::new(size.area() as nat, |i: int| background.0),
                Err(e) => !valid_frame_size(size) && e == GraphicsError::InvalidSize(size),
            },
    {
        let len = match size.pixel_count() {
            Some(len) => {
                if size.is_empty() {
                    return Err(GraphicsError::InvalidSize(size));
                }
                len
            },
            None => return Err(GraphicsError::InvalidSize(size)),
        };
        let pixels = vec![background.0; len];
        proof {
            assert(pixels@ =~= Seq::new(size.area() as nat, |i: int| background.0));
        }
        Ok(Framebuffer { size, pixels })
    }

    /// Wraps an exactly sized Gray8 pixel vector.
    pub fn from_pixels(size: Size, pixels: Vec<u8>) -> (r: Result<Framebuffer, GraphicsError>)
        ensures
            match r {
                Ok(frame) => valid_frame_size(size) && pixels@.len() == size.area() && frame.wf()
                    && frame.spec_size() == size && frame@ == pixels@,
                Err(GraphicsError::InvalidSize(s)) => !valid_frame_size(size) && s == size,
                Err(GraphicsError::BufferLength { expected, actual }) => valid_frame_size(size)
                    && expected == size.area() && actual == pixels@.len() && actual != expected,
            },
    {
        let expected = match size.pixel_count() {
            Some(len) => {
                if size.is_empty() {
                    return Err(GraphicsError::InvalidSize(size));
                }
                len
            },
            None => return Err(GraphicsError::InvalidSize(size)),
        };
        if pixels.len() != expected {
            return Err(GraphicsError::BufferLength { expected, actual: pixels.len() });
        }
        Ok(Framebuffer { size, pixels })
    }

    /// Returns physical framebuffer dimensions.
    pub fn size(&self) -> (r: Size)
        ensures
            r == self.spec_size(),
    {
        self.size
    }

    /// Returns the byte distance between rows.
    pub fn stride_bytes(&self) -> (r: usize)
        ensures
            r == self.spec_size().width,
    {
        self.size.width as usize
    }

    /// Returns immutable canonical Gray8 pixels in row-major order.
    pub fn pixels(&self) -> (r: &[u8])
        ensures
            r@ == self@,
    {
        self.pixels.as_slice()
    }

    /// Returns mutable canonical Gray8 pixels in row-major order.
    ///
    /// The slice cannot change length, so the framebuffer stays well formed.
    pub fn pixels_mut(&mut self) -> (r: &mut [u8])
        ensures
            r@ == old(self)@,
            final(self).spec_size() == old(self).spec_size(),
            final(self)@ == final(r)@,
    {
        self.pixels.as_mut_slice()
    }

    /// Applies `op` to every pixel of `region`, which lies inside the frame.
    fn paint_region(&mut self, region: Rect, op: Paint)
        requires
            old(self).wf(),
            region.origin.x as int + region.size.width <= old(self).spec_size().width,
            region.origin.y as int + region.size.height <= old(self).spec_size().height,
        ensures
            final(self).wf(),
            final(self).spec_size() == old(self).spec_size(),
            final(self)@ == paint(old(self)@, old(self).spec_size().width, region, paint_fn(op)),
    {
        let ghost orig = self.pixels@;
        let ghost f = paint_fn(op);
        let width = self.size.width;
        let x0 = region.origin.x;
        let x1 = region.origin.x + region.size.width;
        let y1 = region.origin.y + region.size.height;
        let mut y = region.origin.y;
        while y < y1
            invariant
                self.size == old(self).size,
                self.wf(),
                width == self.size.width,
                orig == old(self)@,
                self.pixels@.len() == orig.len(),
                orig.len() == width * self.size.height,
                f == paint_fn(op),
                x0 == region.origin.x,
                x1 == region.origin.x + region.size.width,
                y1 == region.origin.y + region.size.height,
                x1 <= width,
                y1 <= self.size.height,
                region.origin.y <= y <= y1,
                forall|i: int|
                    0 <= i < orig.len() ==> #[trigger] self.pixels@[i] == (if region.spec_contains(
                        point_at(i, width),
                    ) && point_at(i, width).y < y {
                        f(orig[i])
                    } else {
                        orig[i]
                    }),
            decreases y1 - y,
        {
            let mut x = x0;
            while x < x1
                invariant
                    self.size == old(self).size,
                    self.wf(),
                    width == self.size.width,
                    orig == old(self)@,
                    self.pixels@.len() == orig.len(),
                    orig.len() == width * self.size.height,
                    f == paint_fn(op),
                    x0 == region.origin.x,
                    x1 == region.origin.x + region.size.width,
                    y1 == region.origin.y + region.size.height,
                    x1 <= width,
                    y1 <= self.size.height,
                    region.origin.y <= y < y1,
                    x0 <= x <= x1,
                    forall|i: int|
                        0 <= i < orig.len() ==> #[trigger] self.pixels@[i] == (if region.spec_contains(
                            point_at(i, width),
                        ) && (point_at(i, width).y < y || (point_at(i, width).y == y
                            && point_at(i, width).x < x)) {
                            f(orig[i])
                        } else {
                            orig[i]
                        }),
                decreases x1 - x,
            {
                proof {
                    lemma_index_in_frame(x as int, y as int, width as int, self.size.height as int);
                    lemma_coords(x as int, y as int, width as int);
                }
                let index = y as usize * width as usize + x as usize;
                let ghost before = self.pixels@;
                let value = paint_pixel(&op, self.pixels[index]);
                self.pixels.set(index, value);
                proof {
                    assert(point_at(index as int, width) == Point { x, y });
                    assert forall|i: int| 0 <= i < orig.len() implies #[trigger] self.pixels@[i] == (
                    if region.spec_contains(point_at(i, width)) && (point_at(i, width).y < y || (
                    point_at(i, width).y == y && point_at(i, width).x < x + 1)) {
                        f(orig[i])
                    } else {
                        orig[i]
                    }) by {
                        if i != index as int {
                            lemma_index_decomposes(i, width as int);
                            lemma_coords_in_frame(i, width as int, self.size.height as int);
                            assert(before[i] == self.pixels@[i]);
                        }
                    }
                }
                x = x + 1;
            }
            y = y + 1;
        }
        proof {
            assert forall|i: int| 0 <= i < orig.len() implies #[trigger] self.pixels@[i] == paint(
                orig,
                width,
                region,
                f,
            )[i] by {
                lemma_index_decomposes(i, width as int);
                lemma_coords_in_frame(i, width as int, self.size.height as int);
            }
            assert(self.pixels@ =~= paint(orig, width, region, f));
        }
    }

    /// Copies `region`, which lies inside the frame, from rows of `source`
    /// that start `stride` bytes apart.
    pub fn copy_region(&mut self, region: Rect, source: &[u8], stride: usize)
        requires
            old(self).wf(),
            region.origin.x as int + region.size.width <= old(self).spec_size().width,
            region.origin.y as int + region.size.height <= old(self).spec_size().height,
            stride >= region.size.width,
            region.size.height > 0 ==> (region.size.height - 1) * stride + region.size.width <= source@.len(),
        ensures
            final(self).wf(),
            final(self).spec_size() == old(self).spec_size(),
            final(self)@ == blit(old(self)@, old(self).spec_size().width, region, source@, stride as int),
    {
        let source_len = source.len();
        self.copy_rows(region, source, source_len, stride);
    }

    /// [`Framebuffer::copy_region`], given the source length; it never unwinds.
    pub(crate) fn copy_rows(&mut self, region: Rect, source: &[u8], source_len: usize, stride: usize)
        requires
            source_len == source@.len(),
            old(self).wf(),
            region.origin.x as int + region.size.width <= old(self).spec_size().width,
            region.origin.y as int + region.size.height <= old(self).spec_size().height,
            stride >= region.size.width,
            region.size.height > 0 ==> (region.size.height - 1) * stride + region.size.width <= source@.len(),
        ensures
            final(self).wf(),
            final(self).spec_size() == old(self).spec_size(),
            final(self)@ == blit(old(self)@, old(self).spec_size().width, region, source@, stride as int),
        no_unwind
    {
        let ghost orig = self.pixels@;
        let width = self.size.width;
        let x0 = region.origin.x;
        let y0 = region.origin.y;
        let x1 = region.origin.x + region.size.width;
        let y1 = region.origin.y + region.size.height;
        let mut y = region.origin.y;
        while y < y1
            invariant
                self.size == old(self).size,
                self.wf(),
                width == self.size.width,
                orig == old(self)@,
                self.pixels@.len() == orig.len(),
                orig.len() == width * self.size.height,
                x0 == region.origin.x,
                y0 == region.origin.y,
                x1 == region.origin.x + region.size.width,
                y1 == region.origin.y + region.size.height,
                x1 <= width,
                y1 <= self.size.height,
                stride >= region.size.width,
                source_len == source@.len(),
                region.size.height > 0 ==> (region.size.height - 1) * stride + region.size.width <= source@.len(),
                y0 <= y <= y1,
                forall|i: int|
                    0 <= i < orig.len() ==> #[trigger] self.pixels@[i] == (if region.spec_contains(
                        point_at(i, width),
                    ) && point_at(i, width).y < y {
                        blit(orig, width, region, source@, stride as int)[i]
                    } else {
                        orig[i]
                    }),
            decreases y1 - y,
        {
            proof {
                assert((y - y0) * stride + region.size.width <= source@.len()) by (nonlinear_arith)
                    requires
                        y0 <= y < y1,
                        y1 == y0 + region.size.height,
                        (region.size.height - 1) * stride + region.size.width <= source@.len(),
                ;
            }
            let row_start = (y - y0) as usize * stride;
            let mut x = x0;
            while x < x1
                invariant
                    self.size == old(self).size,
                    self.wf(),
                    width == self.size.width,
                    orig == old(self)@,
                    self.pixels@.len() == orig.len(),
                    orig.len() == width * self.size.height,
                    x0 == region.origin.x,
                    y0 == region.origin.y,
                    x1 == region.origin.x + region.size.width,
                    y1 == region.origin.y + region.size.height,
                    x1 <= width,
                    y1 <= self.size.height,
                    y0 <= y < y1,
                    x0 <= x <= x1,
                    row_start == (y - y0) * stride,
                    source_len == source@.len(),
                    row_start + region.size.width <= source@.len(),
                    forall|i: int|
                        0 <= i < orig.len() ==> #[trigger] self.pixels@[i] == (if region.spec_contains(
                            point_at(i, width),
                        ) && (point_at(i, width).y < y || (point_at(i, width).y == y
                            && point_at(i, width).x < x)) {
                            blit(orig, width, region, source@, stride as int)[i]
                        } else {
                            orig[i]
                        }),
                decreases x1 - x,
            {
                proof {
                    lemma_index_in_frame(x as int, y as int, width as int, self.size.height as int);
                    lemma_coords(x as int, y as int, width as int);
                }
                let index = y as usize * width as usize + x as usize;
                let ghost before = self.pixels@;
                let value = source[row_start + (x - x0) as usize];
                self.pixels[index] = value;
                proof {
                    assert(point_at(index as int, width) == Point { x, y });
                    assert forall|i: int| 0 <= i < orig.len() implies #[trigger] self.pixels@[i] == (
                    if region.spec_contains(point_at(i, width)) && (point_at(i, width).y < y || (
                    point_at(i, width).y == y && point_at(i, width).x < x + 1)) {
                        blit(orig, width, region, source@, stride as int)[i]
                    } else {
                        orig[i]
                    }) by {
                        if i != index as int {
                            lemma_index_decomposes(i, width as int);
                            lemma_coords_in_frame(i, width as int, self.size.height as int);
                            assert(before[i] == self.pixels@[i]);
                        }
                    }
                }
                x = x + 1;
            }
            y = y + 1;
        }
        proof {
            assert forall|i: int| 0 <= i < orig.len() implies #[trigger] self.pixels@[i] == blit(
                orig,
                width,
                region,
                source@,
                stride as int,
            )[i] by {
                lemma_index_decomposes(i, width as int);
                lemma_coords_in_frame(i, width as int, self.size.height as int);
            }
            assert(self.pixels@ =~= blit(orig, width, region, source@, stride as int));
        }
    }

    /// Applies `op` to the part of `region` that lies inside the frame.
    fn paint_clipped(&mut self, region: Rect, op: Paint)
        requires
            old(self).wf(),
        ensures
            final(self).wf(),
            final(self).spec_size() == old(self).spec_size(),
            final(self)@ == paint(old(self)@, old(self).spec_size().width, region, paint_fn(op)),
    {
        let frame = Rect::from_size(self.size);
        let ghost w = self.size.width;
        let ghost h = self.size.height;
        match region.intersection(frame) {
            None => {
                proof {
                    assert forall|i: int| 0 <= i < self@.len() implies #[trigger] self@[i] == paint(
                        old(self)@,
                        w,
                        region,
                        paint_fn(op),
                    )[i] by {
                        lemma_coords_in_frame(i, w as int, h as int);
                        crate::display::lemma_intersection_points(region, frame, point_at(i, w));
                    }
                    assert(self@ =~= paint(old(self)@, w, region, paint_fn(op)));
                }
            },
            Some(clip) => {
                self.paint_region(clip, op);
                proof {
                    assert forall|i: int| 0 <= i < self@.len() implies #[trigger] self@[i] == paint(
                        old(self)@,
                        w,
                        region,
                        paint_fn(op),
                    )[i] by {
                        lemma_coords_in_frame(i, w as int, h as int);
                        crate::display::lemma_intersection_points(region, frame, point_at(i, w));
                    }
                    assert(self@ =~= paint(old(self)@, w, region, paint_fn(op)));
                }
            },
        }
    }

    /// Fills the portion of a rectangle that intersects the framebuffer.
    pub fn fill_rect(&mut self, rect: Rect, color: Gray8)
        requires
            old(self).wf(),
        ensures
            final(self).wf(),
            final(self).spec_size() == old(self).spec_size(),
            final(self)@ == fill(old(self)@, old(self).spec_size().width, rect, color.0),
    {
        self.paint_clipped(rect, Paint::Fill(color.0));
        proof {
            assert(self@ =~= fill(old(self)@, old(self).spec_size().width, rect, color.0));
        }
    }

    /// Alpha-composites one ink color over a clipped rectangle.
    ///
    /// Each covered pixel becomes `(ink * coverage + old * (255 - coverage) + 127) / 255`.
    pub fn blend_rect(&mut self, rect: Rect, ink: Gray8, coverage: u8)
        requires
            old(self).wf(),
        ensures
            final(self).wf(),
            final(self).spec_size() == old(self).spec_size(),
            final(self)@ == blend(old(self)@, old(self).spec_size().width, rect, ink.0, coverage),
    {
        let ghost w = self.size.width;
        if coverage == 0 {
            proof {
                assert forall|d: u8| #[trigger] blend_value(ink.0, 0, d) == d by {
                    lemma_fundamental_div_mod_converse(d * 255 + 127, 255, d as int, 127);
                }
                assert(self@ =~= blend(old(self)@, w, rect, ink.0, coverage));
            }
            return;
        }
        if coverage == 255 {
            self.fill_rect(rect, ink);
            proof {
                assert forall|d: u8| #[trigger] blend_value(ink.0, 255, d) == ink.0 by {
                    lemma_fundamental_div_mod_converse(ink.0 * 255 + 127, 255, ink.0 as int, 127);
                }
                assert(self@ =~= blend(old(self)@, w, rect, ink.0, coverage));
            }
            return;
        }
        self.paint_clipped(rect, Paint::Blend { ink: ink.0, coverage });
        proof {
            assert(self@ =~= blend(old(self)@, w, rect, ink.0, coverage));
        }
    }

    /// Draws an inward rectangular stroke, clipped to the framebuffer.
    ///
    /// The band width is capped by the rectangle's width and height; the
    /// top, bottom, left and right bands are filled in that order.
    pub fn stroke_rect(&mut self, rect: Rect, width: u32, color: Gray8)
        requires
            old(self).wf(),
        ensures
            final(self).wf(),
            final(self).spec_size() == old(self).spec_size(),
            final(self)@ == stroke(old(self)@, old(self).spec_size().width, rect, width, color.0),
    {
        if width == 0 || rect.is_empty() {
            return;
        }
        let width = crate::display::min32(crate::display::min32(width, rect.size.width), rect.size.height);
        self.fill_rect(Rect::new(rect.origin.x, rect.origin.y, rect.size.width, width), color);
        self.fill_rect(
            Rect::new(rect.origin.x, rect.bottom().saturating_sub(width), rect.size.width, width),
            color,
        );
        self.fill_rect(Rect::new(rect.origin.x, rect.origin.y, width, rect.size.height), color);
        self.fill_rect(
            Rect::new(rect.right().saturating_sub(width), rect.origin.y, width, rect.size.height),
            color,
        );
    }

    /// Returns a newly allocated framebuffer in the requested orientation.
    ///
    /// Output pixel `(x, y)` takes the source pixel that the clockwise
    /// rotation carries onto it; the pixel count is unchanged.
    pub fn rotated(&self, rotation: Rotation) -> (r: Framebuffer)
        requires
            self.wf(),
        ensures
            r.wf(),
            r.spec_size() == rotation.spec_output_size(self.spec_size()),
            r@ == rotate(self@, self.spec_size(), rotation),
    {
        let size = self.size;
        let out = rotation.output_size(size);
        let len = self.pixels.len();
        let w = size.width as usize;
        let h = size.height as usize;
        let out_width = out.width as usize;
        let mut pixels: Vec<u8> = Vec::with_capacity(len);
        let mut j: usize = 0;
        proof {
            assert(out.area() == size.area()) by (nonlinear_arith)
                requires
                    out.width == size.width && out.height == size.height || out.width == size.height
                        && out.height == size.width,
            ;
        }
        while j < len
            invariant
                len == self@.len(),
                len == w * h,
                self.wf(),
                size == self.spec_size(),
                w == size.width,
                h == size.height,
                out == rotation.spec_output_size(size),
                out_width == out.width,
                out.area() == len,
                0 <= j <= len,
                pixels@ =~= Seq::new(j as nat, |k: int| self@[rotation_source(rotation, size, k)]),
            decreases len - j,
        {
            proof {
                lemma_coords_in_frame(j as int, out.width as int, out.height as int);
            }
            let dx = j % out_width;
            let dy = j / out_width;
            let source = match rotation {
                Rotation::Upright => j,
                Rotation::Clockwise90 => {
                    proof {
                        lemma_index_in_frame(dy as int, (h - 1 - dx) as int, w as int, h as int);
                    }
                    (h - 1 - dx) * w + dy
                },
                Rotation::Clockwise180 => {
                    proof {
                        lemma_index_in_frame((w - 1 - dx) as int, (h - 1 - dy) as int, w as int, h as int);
                    }
                    (h - 1 - dy) * w + (w - 1 - dx)
                },
                Rotation::Clockwise270 => {
                    proof {
                        lemma_index_in_frame((w - 1 - dy) as int, dx as int, w as int, h as int);
                    }
                    dx * w + (w - 1 - dy)
                },
            };
            assert(source as int == rotation_source(rotation, size, j as int));
            pixels.push(self.pixels[source]);
            j = j + 1;
        }
        Framebuffer { size: out, pixels }
    }

    /// Fills the complete framebuffer.
    pub fn clear(&mut self, color: Gray8)
        requires
            old(self).wf(),
        ensures
            final(self).wf(),
            final(self).spec_size() == old(self).spec_size(),
            final(self)@ == Seq::new(old(self)@.len(), |i: int| color.0),
    {
        let len = self.pixels.len();
        let mut i: usize = 0;
        while i < len
            invariant
                len == self.pixels@.len(),
                self.size == old(self).size,
                self.pixels@.len() == old(self)@.len(),
                0 <= i <= len,
                forall|j: int| 0 <= j < i ==> self.pixels@[j] == color.0,
            decreases len - i,
        {
            self.pixels.set(i, color.0);
            i = i + 1;
        }
        proof {
            assert(self@ =~= Seq::new(old(self)@.len(), |i: int| color.0));
        }
    }

    /// The index of `point`, when it lies inside the frame.
    fn index(&self, point: Point) -> (r: Option<usize>)
        requires
            self.wf(),
        ensures
            r == (if point.x < self.spec_size().width && point.y < self.spec_size().height {
                Some(index_of(point, self.spec_size().width) as usize)
            } else {
                None::<usize>
            }),
            r matches Some(i) ==> i < self@.len() && i as int == index_of(point, self.spec_size().width)
                && point_at(i as int, self.spec_size().width) == point,
    {
        if point.x < self.size.width && point.y < self.size.height {
            proof {
                lemma_index_in_frame(
                    point.x as int,
                    point.y as int,
                    self.size.width as int,
                    self.size.height as int,
                );
                lemma_coords(point.x as int, point.y as int, self.size.width as int);
            }
            Some(point.y as usize * self.size.width as usize + point.x as usize)
        } else {
            None
        }
    }

    /// Returns one pixel or `None` outside the framebuffer.
    pub fn get(&self, point: Point) -> (r: Option<Gray8>)
        requires
            self.wf(),
        ensures
            r == (if point.x < self.spec_size().width && point.y < self.spec_size().height {
                Some(Gray8(self@[index_of(point, self.spec_size().width)]))
            } else {
                None::<Gray8>
            }),
    {
        match self.index(point) {
            Some(index) => Some(Gray8(self.pixels[index])),
            None => None,
        }
    }

    /// Draws a pixel, returning `false` when it falls outside the framebuffer.
    pub fn set(&mut self, point: Point, color: Gray8) -> (r: bool)
        requires
            old(self).wf(),
        ensures
            final(self).wf(),
            final(self).spec_size() == old(self).spec_size(),
            r == (point.x < old(self).spec_size().width && point.y < old(self).spec_size().height),
            final(self)@ == (if r {
                old(self)@.update(index_of(point, old(self).spec_size().width), color.0)
            } else {
                old(self)@
            }),
            final(self)@ == fill(old(self)@, old(self).spec_size().width, rect(point.x, point.y, 1, 1), color.0),
    {
        match self.index(point) {
            Some(index) => {
                self.pixels.set(index, color.0);
                proof {
                    let w = self.size.width;
                    assert forall|i: int| 0 <= i < self@.len() implies #[trigger] self@[i] == fill(
                        old(self)@,
                        w,
                        rect(point.x, point.y, 1, 1),
                        color.0,
                    )[i] by {
                        lemma_index_decomposes(i, w as int);
                        lemma_coords_in_frame(i, w as int, self.size.height as int);
                    }
                    assert(self@ =~= fill(old(self)@, w, rect(point.x, point.y, 1, 1), color.0));
                }
                true
            },
            None => {
                proof {
                    let w = self.size.width;
                    assert forall|i: int| 0 <= i < self@.len() implies #[trigger] self@[i] == fill(
                        old(self)@,
                        w,
                        rect(point.x, point.y, 1, 1),
                        color.0,
                    )[i] by {
                        lemma_index_decomposes(i, w as int);
                        lemma_coords_in_frame(i, w as int, self.size.height as int);
                    }
                    assert(self@ =~= fill(old(self)@, w, rect(point.x, point.y, 1, 1), color.0));
                }
                false
            },
        }
    }
}

} // verus!
