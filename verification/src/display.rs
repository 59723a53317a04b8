//! Display geometry, pixel encodings, update profiles and the physical
//! display contract shared by every backend.

use vstd::prelude::*;

verus! {

/// `a + b`, saturated at `u32::MAX`.
pub open spec fn sat_add(a: u32, b: u32) -> u32 {
    if a + b > u32::MAX {
        u32::MAX
    } else {
        (a + b) as u32
    }
}

/// `a - b`, saturated at zero.
pub open spec fn sat_sub(a: u32, b: u32) -> u32 {
    if a >= b {
        (a - b) as u32
    } else {
        0
    }
}

pub open spec fn min_u32(a: u32, b: u32) -> u32 {
    if a <= b {
        a
    } else {
        b
    }
}

pub open spec fn max_u32(a: u32, b: u32) -> u32 {
    if a >= b {
        a
    } else {
        b
    }
}

pub fn min32(a: u32, b: u32) -> (r: u32)
    ensures
        r == min_u32(a, b),
{
    if a <= b {
        a
    } else {
        b
    }
}

pub fn max32(a: u32, b: u32) -> (r: u32)
    ensures
        r == max_u32(a, b),
{
    if a >= b {
        a
    } else {
        b
    }
}

/// A two-dimensional size in physical pixels.
#[derive(Clone, Copy, Debug, Default, PartialEq, Eq, Structural)]
pub struct Size {
    pub width: u32,
    pub height: u32,
}

impl Size {
    pub fn new(width: u32, height: u32) -> (s: Size)
        ensures
            s.width == width,
            s.height == height,
    {
        Size { width, height }
    }

    pub open spec fn spec_is_empty(self) -> bool {
        self.width == 0 || self.height == 0
    }

    /// Number of pixels, as a mathematical integer.
    pub open spec fn area(self) -> int {
        self.width * self.height
    }

    pub fn is_empty(self) -> (r: bool)
        ensures
            r == self.spec_is_empty(),
    {
        self.width == 0 || self.height == 0
    }

    /// The pixel count, or `None` when `width * height` does not fit in a `u32`.
    pub fn pixel_count(self) -> (r: Option<usize>)
        ensures
            r == (if self.area() <= u32::MAX {
                Some(self.area() as usize)
            } else {
                None::<usize>
            }),
    {
        match self.width.checked_mul(self.height) {
            Some(value) => Some(value as usize),
            None => None,
        }
    }
}

/// A point in physical pixel coordinates.
#[derive(Clone, Copy, Debug, Default, PartialEq, Eq, Structural)]
pub struct Point {
    pub x: u32,
    pub y: u32,
}

impl Point {
    pub fn new(x: u32, y: u32) -> (p: Point)
        ensures
            p.x == x,
            p.y == y,
    {
        Point { x, y }
    }
}

/// A half-open rectangle: `[x, x + width) × [y, y + height)`.
#[derive(Clone, Copy, Debug, Default, PartialEq, Eq, Structural)]
pub struct Rect {
    pub origin: Point,
    pub size: Size,
}

pub open spec fn rect(x: u32, y: u32, width: u32, height: u32) -> Rect {
    Rect { origin: Point { x, y }, size: Size { width, height } }
}

impl Rect {
    pub fn new(x: u32, y: u32, width: u32, height: u32) -> (r: Rect)
        ensures
            r == rect(x, y, width, height),
    {
        Rect { origin: Point { x, y }, size: Size { width, height } }
    }

    pub fn from_size(size: Size) -> (r: Rect)
        ensures
            r == rect(0, 0, size.width, size.height),
    {
        Rect { origin: Point { x: 0, y: 0 }, size }
    }

    pub open spec fn spec_right(self) -> u32 {
        sat_add(self.origin.x, self.size.width)
    }

    pub open spec fn spec_bottom(self) -> u32 {
        sat_add(self.origin.y, self.size.height)
    }

    pub open spec fn spec_contains(self, p: Point) -> bool {
        &&& p.x >= self.origin.x
        &&& p.y >= self.origin.y
        &&& p.x < self.spec_right()
        &&& p.y < self.spec_bottom()
    }

    pub open spec fn spec_intersection(self, other: Rect) -> Option<Rect> {
        let x = max_u32(self.origin.x, other.origin.x);
        let y = max_u32(self.origin.y, other.origin.y);
        let right = min_u32(self.spec_right(), other.spec_right());
        let bottom = min_u32(self.spec_bottom(), other.spec_bottom());
        if right > x && bottom > y {
            Some(rect(x, y, (right - x) as u32, (bottom - y) as u32))
        } else {
            None
        }
    }

    pub open spec fn spec_union(self, other: Rect) -> Rect {
        if self.size.spec_is_empty() {
            other
        } else if other.size.spec_is_empty() {
            self
        } else {
            let x = min_u32(self.origin.x, other.origin.x);
            let y = min_u32(self.origin.y, other.origin.y);
            let right = max_u32(self.spec_right(), other.spec_right());
            let bottom = max_u32(self.spec_bottom(), other.spec_bottom());
            rect(x, y, (right - x) as u32, (bottom - y) as u32)
        }
    }

    pub fn is_empty(self) -> (r: bool)
        ensures
            r == self.size.spec_is_empty(),
    {
        self.size.is_empty()
    }

    pub fn right(self) -> (r: u32)
        ensures
            r == self.spec_right(),
    {
        self.origin.x.saturating_add(self.size.width)
    }

    pub fn bottom(self) -> (r: u32)
        ensures
            r == self.spec_bottom(),
    {
        self.origin.y.saturating_add(self.size.height)
    }

    pub fn contains(self, point: Point) -> (r: bool)
        ensures
            r == self.spec_contains(point),
    {
        point.x >= self.origin.x && point.y >= self.origin.y && point.x < self.right() && point.y
            < self.bottom()
    }

    /// The common part of two rectangles, or `None` when they do not overlap.
    pub fn intersection(self, other: Rect) -> (r: Option<Rect>)
        ensures
            r == self.spec_intersection(other),
            r matches Some(i) ==> !i.size.spec_is_empty() && i.spec_right() == min_u32(
                self.spec_right(),
                other.spec_right(),
            ) && i.spec_bottom() == min_u32(self.spec_bottom(), other.spec_bottom()),
    {
        let x = max32(self.origin.x, other.origin.x);
        let y = max32(self.origin.y, other.origin.y);
        let right = min32(self.right(), other.right());
        let bottom = min32(self.bottom(), other.bottom());
        if right > x && bottom > y {
            Some(Rect::new(x, y, right - x, bottom - y))
        } else {
            None
        }
    }

    /// The smallest rectangle that covers both; an empty side yields the other.
    pub fn union(self, other: Rect) -> (r: Rect)
        ensures
            r == self.spec_union(other),
    {
        if self.is_empty() {
            return other;
        }
        if other.is_empty() {
            return self;
        }
        let x = min32(self.origin.x, other.origin.x);
        let y = min32(self.origin.y, other.origin.y);
        let right = max32(self.right(), other.right());
        let bottom = max32(self.bottom(), other.bottom());
        proof {
            assert(self.spec_right() >= self.origin.x);
            assert(other.spec_right() >= other.origin.x);
        }
        Rect::new(x, y, right - x, bottom - y)
    }
}

/// A point lies in the intersection exactly when it lies in both rectangles,
/// and two rectangles without an intersection share no point.
pub proof fn lemma_intersection_points(a: Rect, b: Rect, p: Point)
    ensures
        match a.spec_intersection(b) {
            Some(i) => i.spec_contains(p) <==> (a.spec_contains(p) && b.spec_contains(p)),
            None => !(a.spec_contains(p) && b.spec_contains(p)),
        },
{
}

/// Intersection does not depend on argument order.
pub proof fn lemma_intersection_commutes(a: Rect, b: Rect)
    ensures
        a.spec_intersection(b) == b.spec_intersection(a),
{
}

/// The union of two non-empty rectangles contains every point of each.
pub proof fn lemma_union_covers(a: Rect, b: Rect, p: Point)
    requires
        a.spec_contains(p) || b.spec_contains(p),
    ensures
        a.spec_union(b).spec_contains(p),
{
}

/// Pixel encodings accepted at the display boundary.
#[derive(Clone, Copy, Debug, PartialEq, Eq, Structural)]
pub enum PixelFormat {
    Monochrome1,
    Gray2,
    Gray4,
    Gray8,
}

impl PixelFormat {
    pub open spec fn spec_bits(self) -> u8 {
        match self {
            PixelFormat::Monochrome1 => 1,
            PixelFormat::Gray2 => 2,
            PixelFormat::Gray4 => 4,
            PixelFormat::Gray8 => 8,
        }
    }

    /// Bytes needed for `width` packed pixels: `ceil(width * bits / 8)`.
    pub open spec fn spec_row_bytes(self, width: u32) -> int {
        (width * self.spec_bits() + 7) / 8
    }

    pub fn bits_per_pixel(self) -> (r: u8)
        ensures
            r == self.spec_bits(),
    {
        match self {
            PixelFormat::Monochrome1 => 1,
            PixelFormat::Gray2 => 2,
            PixelFormat::Gray4 => 4,
            PixelFormat::Gray8 => 8,
        }
    }

    /// Bytes occupied by one packed row of `width` pixels.
    ///
    /// The count never exceeds `width`, so it is always representable.
    pub fn row_bytes(self, width: u32) -> (r: Option<usize>)
        ensures
            r == Some(self.spec_row_bytes(width) as usize),
            self.spec_row_bytes(width) <= width,
    {
        let bits = self.bits_per_pixel() as u64;
        let w = width as u64;
        proof {
            assert(w * bits <= w * 8) by (nonlinear_arith)
                requires
                    bits <= 8,
            ;
        }
        let total = w * bits + 7;
        let bytes = total / 8;
        Some(bytes as usize)
    }
}

/// Semantic waveform intent. A controller backend maps this to its firmware LUT.
#[derive(Clone, Copy, Debug, PartialEq, Eq, Structural)]
pub enum Waveform {
    /// Clear accumulated charge and return the panel to a known state.
    Initialize,
    /// Highest-quality grayscale update.
    Grayscale,
    /// Fast black/white update; ghosting is expected to accumulate.
    FastMonochrome,
    /// A backend-specific waveform requested by an expert caller.
    ControllerSpecific(u16),
}

/// Physical panel rotation.
#[derive(Clone, Copy, Debug, Default, PartialEq, Eq, Structural)]
pub enum Rotation {
    #[default]
    Degrees0,
    Degrees90,
    Degrees180,
    Degrees270,
}

/// Region restrictions for a format/waveform combination. Every alignment
/// is at least one: a zero alignment is refused, never read as unrestricted.
#[derive(Clone, Copy, Debug, PartialEq, Eq, Structural)]
pub struct UpdateConstraints {
    pub(crate) x_alignment: u32,
    pub(crate) y_alignment: u32,
    pub(crate) width_alignment: u32,
    pub(crate) height_alignment: u32,
}

/// The alignment used in the alignment formulas. Constructible constraints
/// never hold zero, so this is the alignment itself; the guard only keeps
/// the formulas total.
pub open spec fn effective(alignment: u32) -> u32 {
    if alignment == 0 {
        1
    } else {
        alignment
    }
}

/// `value` rounded up to a multiple of `alignment`, saturated at `u32::MAX`.
pub open spec fn spec_align_up(value: u32, alignment: u32) -> u32 {
    if value % alignment == 0 {
        value
    } else {
        sat_add(value, (alignment - value % alignment) as u32)
    }
}

/// `value` rounded down to a multiple of `alignment`.
pub open spec fn align_down(value: u32, alignment: u32) -> u32 {
    (value - value % alignment) as u32
}

impl UpdateConstraints {
    #[verifier::type_invariant]
    spec fn alignments_nonzero(self) -> bool {
        &&& self.x_alignment > 0
        &&& self.y_alignment > 0
        &&& self.width_alignment > 0
        &&& self.height_alignment > 0
    }

    pub closed spec fn spec_x_alignment(self) -> u32 {
        self.x_alignment
    }

    pub closed spec fn spec_y_alignment(self) -> u32 {
        self.y_alignment
    }

    pub closed spec fn spec_width_alignment(self) -> u32 {
        self.width_alignment
    }

    pub closed spec fn spec_height_alignment(self) -> u32 {
        self.height_alignment
    }

    /// The constraints with these four alignments.
    pub closed spec fn spec_new(x_alignment: u32, y_alignment: u32, width_alignment: u32, height_alignment: u32) -> Self {
        UpdateConstraints { x_alignment, y_alignment, width_alignment, height_alignment }
    }

    /// The constraints built from four alignments hold exactly those
    /// alignments.
    pub proof fn lemma_spec_new_alignments(
        x_alignment: u32,
        y_alignment: u32,
        width_alignment: u32,
        height_alignment: u32,
    )
        ensures
            ({
                let c = UpdateConstraints::spec_new(x_alignment, y_alignment, width_alignment, height_alignment);
                &&& c.spec_x_alignment() == x_alignment
                &&& c.spec_y_alignment() == y_alignment
                &&& c.spec_width_alignment() == width_alignment
                &&& c.spec_height_alignment() == height_alignment
            }),
    {
    }

    /// Validated constraints; `None` when any alignment is zero.
    pub fn new(x_alignment: u32, y_alignment: u32, width_alignment: u32, height_alignment: u32) -> (r: Option<
        UpdateConstraints,
    >)
        ensures
            r is None <==> (x_alignment == 0 || y_alignment == 0 || width_alignment == 0 || height_alignment == 0),
            r matches Some(c) ==> c == UpdateConstraints::spec_new(
                x_alignment,
                y_alignment,
                width_alignment,
                height_alignment,
            ) && c.spec_x_alignment() == x_alignment && c.spec_y_alignment() == y_alignment
                && c.spec_width_alignment() == width_alignment && c.spec_height_alignment() == height_alignment,
    {
        if x_alignment == 0 || y_alignment == 0 || width_alignment == 0 || height_alignment == 0 {
            None
        } else {
            Some(UpdateConstraints { x_alignment, y_alignment, width_alignment, height_alignment })
        }
    }

    /// Constraints that accept every region.
    pub fn unrestricted() -> (c: UpdateConstraints)
        ensures
            c == UpdateConstraints::spec_new(1, 1, 1, 1),
            c.spec_x_alignment() == 1 && c.spec_y_alignment() == 1 && c.spec_width_alignment() == 1
                && c.spec_height_alignment() == 1,
    {
        UpdateConstraints { x_alignment: 1, y_alignment: 1, width_alignment: 1, height_alignment: 1 }
    }

    /// Horizontal origin alignment.
    pub fn x_alignment(&self) -> (r: u32)
        ensures
            r == self.spec_x_alignment(),
            r > 0,
    {
        proof {
            use_type_invariant(self);
        }
        self.x_alignment
    }

    /// Vertical origin alignment.
    pub fn y_alignment(&self) -> (r: u32)
        ensures
            r == self.spec_y_alignment(),
            r > 0,
    {
        proof {
            use_type_invariant(self);
        }
        self.y_alignment
    }

    /// Width alignment.
    pub fn width_alignment(&self) -> (r: u32)
        ensures
            r == self.spec_width_alignment(),
            r > 0,
    {
        proof {
            use_type_invariant(self);
        }
        self.width_alignment
    }

    /// Height alignment.
    pub fn height_alignment(&self) -> (r: u32)
        ensures
            r == self.spec_height_alignment(),
            r > 0,
    {
        proof {
            use_type_invariant(self);
        }
        self.height_alignment
    }

    /// The aligned and clipped region, as a formula.
    pub open spec fn spec_align_region(self, region: Rect, panel: Size) -> Rect {
        let xa = effective(self.spec_x_alignment());
        let ya = effective(self.spec_y_alignment());
        let wa = effective(self.spec_width_alignment());
        let ha = effective(self.spec_height_alignment());
        let x = align_down(region.origin.x, xa);
        let y = align_down(region.origin.y, ya);
        let wanted_width = spec_align_up(sat_sub(region.spec_right(), x), wa);
        let wanted_height = spec_align_up(sat_sub(region.spec_bottom(), y), ha);
        let legal_width = align_down(sat_sub(panel.width, x), wa);
        let legal_height = align_down(sat_sub(panel.height, y), ha);
        rect(x, y, min_u32(wanted_width, legal_width), min_u32(wanted_height, legal_height))
    }

    /// Expands a region outward to legal boundaries, clipped to the panel.
    ///
    /// The origin moves down to the nearest aligned coordinate, the extent
    /// grows to an aligned size, and the result never leaves the panel. When
    /// the grown extent fits, the result covers the whole requested region.
    pub fn align_region(self, region: Rect, panel: Size) -> (r: Rect)
        ensures
            r == self.spec_align_region(region, panel),
            r.origin.x <= region.origin.x,
            r.origin.y <= region.origin.y,
            r.origin.x % effective(self.spec_x_alignment()) == 0,
            r.origin.y % effective(self.spec_y_alignment()) == 0,
            r.size.width % effective(self.spec_width_alignment()) == 0,
            r.size.height % effective(self.spec_height_alignment()) == 0,
            r.size.width == 0 || r.origin.x + r.size.width <= panel.width,
            r.size.height == 0 || r.origin.y + r.size.height <= panel.height,
            r.size.width == spec_align_up(
                sat_sub(region.spec_right(), r.origin.x),
                effective(self.spec_width_alignment()),
            ) ==> r.spec_right() >= region.spec_right(),
            r.size.height == spec_align_up(
                sat_sub(region.spec_bottom(), r.origin.y),
                effective(self.spec_height_alignment()),
            ) ==> r.spec_bottom() >= region.spec_bottom(),
    {
        proof {
            use_type_invariant(&self);
        }
        let x_alignment = self.x_alignment;
        let y_alignment = self.y_alignment;
        let width_alignment = self.width_alignment;
        let height_alignment = self.height_alignment;
        let x = align_down_exec(region.origin.x, x_alignment);
        let y = align_down_exec(region.origin.y, y_alignment);
        let width = aligned_extent(region.origin.x, region.right(), x, panel.width, width_alignment);
        let height = aligned_extent(region.origin.y, region.bottom(), y, panel.height, height_alignment);
        Rect::new(x, y, width, height)
    }
}

fn align_down_exec(value: u32, alignment: u32) -> (r: u32)
    requires
        alignment >= 1,
    ensures
        r == align_down(value, alignment),
        r <= value,
        r % alignment == 0,
{
    proof {
        lemma_align_down(value, alignment);
    }
    value - value % alignment
}

/// The aligned extent along one axis: the requested extent `[start, end)`
/// measured from the aligned origin, grown to the alignment, clipped to the
/// aligned space left in the panel.
fn aligned_extent(start: u32, end: u32, origin: u32, panel: u32, alignment: u32) -> (r: u32)
    requires
        alignment >= 1,
        origin <= start <= end,
    ensures
        r == min_u32(
            spec_align_up(sat_sub(end, origin), alignment),
            align_down(sat_sub(panel, origin), alignment),
        ),
        r % alignment == 0,
        r == 0 || origin + r <= panel,
        r == spec_align_up(sat_sub(end, origin), alignment) ==> sat_add(origin, r) >= end,
{
    let wanted = align_up(end - origin, alignment);
    let legal = align_down_exec(panel.saturating_sub(origin), alignment);
    proof {
        lemma_align_up(sat_sub(end, origin), alignment);
    }
    min32(wanted, legal)
}

proof fn lemma_align_down(value: u32, alignment: u32)
    requires
        alignment >= 1,
    ensures
        value % alignment <= value,
        align_down(value, alignment) <= value,
        align_down(value, alignment) % alignment == 0,
{
    vstd::arithmetic::div_mod::lemma_fundamental_div_mod(value as int, alignment as int);
    vstd::arithmetic::div_mod::lemma_mod_bound(value as int, alignment as int);
    let q = value as int / alignment as int;
    vstd::arithmetic::div_mod::lemma_div_pos_is_pos(value as int, alignment as int);
    assert(alignment * q >= 0) by (nonlinear_arith)
        requires
            alignment >= 1,
            q >= 0,
    ;
    vstd::arithmetic::div_mod::lemma_mod_multiples_basic(value as int / alignment as int, alignment as int);
    vstd::arithmetic::mul::lemma_mul_is_commutative(value as int / alignment as int, alignment as int);
}

proof fn lemma_align_up(value: u32, alignment: u32)
    requires
        alignment >= 1,
    ensures
        spec_align_up(value, alignment) >= value,
        spec_align_up(value, alignment) < u32::MAX ==> spec_align_up(value, alignment) % alignment == 0,
        spec_align_up(value, alignment) == u32::MAX ==> spec_align_up(value, alignment) % alignment == 0 || value + alignment - value % alignment > u32::MAX,
{
    let r = value % alignment;
    vstd::arithmetic::div_mod::lemma_fundamental_div_mod(value as int, alignment as int);
    if r != 0 && value + (alignment - r) <= u32::MAX {
        let q = value as int / alignment as int;
        assert(value + (alignment - r) == (q + 1) * alignment) by (nonlinear_arith)
            requires
                value == alignment * q + r,
        ;
        vstd::arithmetic::div_mod::lemma_mod_multiples_basic(q + 1, alignment as int);
    }
}

fn align_up(value: u32, alignment: u32) -> (r: u32)
    requires
        alignment >= 1,
    ensures
        r == spec_align_up(value, alignment),
{
    let remainder = value % alignment;
    if remainder == 0 {
        value
    } else {
        value.saturating_add(alignment - remainder)
    }
}

/// One format/waveform pair a display can execute, with its region rules.
#[derive(Clone, Copy, Debug, PartialEq, Eq, Structural)]
pub struct UpdateProfile {
    pub pixel_format: PixelFormat,
    pub waveform: Waveform,
    pub partial: bool,
    pub constraints: UpdateConstraints,
}

impl UpdateProfile {
    pub fn new(
        pixel_format: PixelFormat,
        waveform: Waveform,
        partial: bool,
        constraints: UpdateConstraints,
    ) -> (p: UpdateProfile)
        ensures
            p == (UpdateProfile { pixel_format, waveform, partial, constraints }),
    {
        UpdateProfile { pixel_format, waveform, partial, constraints }
    }

    pub fn pixel_format(&self) -> (r: PixelFormat)
        ensures
            r == self.pixel_format,
    {
        self.pixel_format
    }

    pub fn waveform(&self) -> (r: Waveform)
        ensures
            r == self.waveform,
    {
        self.waveform
    }

    /// Whether this profile may refresh a sub-region of the panel.
    pub fn supports_partial(&self) -> (r: bool)
        ensures
            r == self.partial,
    {
        self.partial
    }

    pub fn constraints(&self) -> (r: UpdateConstraints)
        ensures
            r == self.constraints,
    {
        self.constraints
    }
}

/// The first profile of `profiles` with this format and waveform.
pub open spec fn first_profile(profiles: Seq<UpdateProfile>, format: PixelFormat, waveform: Waveform) -> Option<UpdateProfile>
    decreases profiles.len(),
{
    if profiles.len() == 0 {
        None
    } else if profiles[0].pixel_format == format && profiles[0].waveform == waveform {
        Some(profiles[0])
    } else {
        first_profile(profiles.drop_first(), format, waveform)
    }
}

/// The profile found for a format and waveform has that format and
/// waveform, and is one of the advertised profiles.
pub proof fn lemma_first_profile_matches(profiles: Seq<UpdateProfile>, format: PixelFormat, waveform: Waveform)
    ensures
        first_profile(profiles, format, waveform) matches Some(p) ==> p.pixel_format == format && p.waveform
            == waveform && profiles.contains(p),
    decreases profiles.len(),
{
    if profiles.len() > 0 && !(profiles[0].pixel_format == format && profiles[0].waveform == waveform) {
        lemma_first_profile_matches(profiles.drop_first(), format, waveform);
        let found = first_profile(profiles, format, waveform);
        if found is Some {
            let p = found->0;
            let j = choose|j: int| 0 <= j < profiles.drop_first().len() && profiles.drop_first()[j] == p;
            assert(profiles[j + 1] == p);
        }
    } else if profiles.len() > 0 {
        assert(profiles[0] == profiles[0]);
    }
}

/// Immutable capabilities discovered from a display/controller pair.
#[derive(Clone, Debug, PartialEq, Eq)]
pub struct DisplayCapabilities {
    pub native_size: Size,
    pub update_profiles: Vec<UpdateProfile>,
}

impl DisplayCapabilities {
    pub open spec fn spec_profile(&self, format: PixelFormat, waveform: Waveform) -> Option<UpdateProfile> {
        first_profile(self.update_profiles@, format, waveform)
    }

    pub open spec fn spec_supports_format(&self, format: PixelFormat) -> bool {
        exists|i: int| 0 <= i < self.update_profiles@.len() && #[trigger] self.update_profiles@[i].pixel_format == format
    }

    pub open spec fn spec_supports_waveform(&self, waveform: Waveform) -> bool {
        exists|i: int| 0 <= i < self.update_profiles@.len() && #[trigger] self.update_profiles@[i].waveform == waveform
    }

    /// The first advertised profile for this format and waveform.
    pub fn profile(&self, format: PixelFormat, waveform: Waveform) -> (r: Option<UpdateProfile>)
        ensures
            r == self.spec_profile(format, waveform),
            r matches Some(p) ==> p.pixel_format == format && p.waveform == waveform,
    {
        let mut i: usize = 0;
        assert(self.update_profiles@.skip(0) == self.update_profiles@);
        while i < self.update_profiles.len()
            invariant
                0 <= i <= self.update_profiles@.len(),
                first_profile(self.update_profiles@, format, waveform) == first_profile(
                    self.update_profiles@.skip(i as int),
                    format,
                    waveform,
                ),
            decreases self.update_profiles@.len() - i,
        {
            let candidate = self.update_profiles[i];
            let ghost rest = self.update_profiles@.skip(i as int);
            assert(rest[0] == candidate);
            assert(rest.drop_first() == self.update_profiles@.skip(i + 1));
            if candidate.pixel_format == format && candidate.waveform == waveform {
                return Some(candidate);
            }
            i = i + 1;
        }
        proof {
            assert(self.update_profiles@.skip(i as int).len() == 0);
        }
        None
    }

    /// Whether some advertised profile uses this pixel format.
    pub fn supports_format(&self, format: PixelFormat) -> (r: bool)
        ensures
            r == self.spec_supports_format(format),
    {
        let mut i: usize = 0;
        while i < self.update_profiles.len()
            invariant
                0 <= i <= self.update_profiles@.len(),
                forall|j: int| 0 <= j < i ==> #[trigger] self.update_profiles@[j].pixel_format != format,
            decreases self.update_profiles@.len() - i,
        {
            if self.update_profiles[i].pixel_format == format {
                return true;
            }
            i = i + 1;
        }
        false
    }

    /// Whether some advertised profile uses this waveform.
    pub fn supports_waveform(&self, waveform: Waveform) -> (r: bool)
        ensures
            r == self.spec_supports_waveform(waveform),
    {
        let mut i: usize = 0;
        while i < self.update_profiles.len()
            invariant
                0 <= i <= self.update_profiles@.len(),
                forall|j: int| 0 <= j < i ==> #[trigger] self.update_profiles@[j].waveform != waveform,
            decreases self.update_profiles@.len() - i,
        {
            if self.update_profiles[i].waveform == waveform {
                return true;
            }
            i = i + 1;
        }
        false
    }
}

/// One intentional display update.
#[derive(Clone, Copy, Debug)]
pub struct UpdateRequest<'a> {
    pub region: Rect,
    pub pixel_format: PixelFormat,
    pub stride_bytes: usize,
    pub pixels: &'a [u8],
    pub waveform: Waveform,
}

/// A controller-agnostic physical display.
///
/// Implementations own upload, refresh completion, and power-state details.
/// The runtime owns policy: deciding *when* and *what* to update.
pub trait Display {
    type Error;

    fn capabilities(&self) -> &DisplayCapabilities;

    fn update(&mut self, request: UpdateRequest<'_>) -> Result<(), Self::Error>;

    fn sleep(&mut self) -> Result<(), Self::Error>;

    fn wake(&mut self) -> Result<(), Self::Error>;
}

} // verus!
