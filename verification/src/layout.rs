//! Deterministic, allocation-free layout primitives.
//!
//! Application-facing design values are resolved through [`ScaleFactor`] before
//! this module places rectangles in physical framebuffer pixels.

use vstd::prelude::*;

use crate::display::{Rect, Size, rect, sat_add, sat_sub, min_u32};

verus! {

/// Insets in resolved physical pixels.
#[derive(Clone, Copy, Debug, Default, PartialEq, Eq, Structural)]
pub struct Insets {
    /// Top inset.
    pub top: u32,
    /// Right inset.
    pub right: u32,
    /// Bottom inset.
    pub bottom: u32,
    /// Left inset.
    pub left: u32,
}

impl Insets {
    /// Creates equal insets on every side.
    pub fn all(value: u32) -> (r: Insets)
        ensures
            r == (Insets { top: value, right: value, bottom: value, left: value }),
    {
        Insets { top: value, right: value, bottom: value, left: value }
    }

    /// Returns the combined left and right inset, saturated at `u32::MAX`.
    pub fn horizontal(self) -> (r: u32)
        ensures
            r == sat_add(self.left, self.right),
    {
        self.left.saturating_add(self.right)
    }

    /// Returns the combined top and bottom inset, saturated at `u32::MAX`.
    pub fn vertical(self) -> (r: u32)
        ensures
            r == sat_add(self.top, self.bottom),
    {
        self.top.saturating_add(self.bottom)
    }
}

/// A size expressed in application design units.
#[derive(Clone, Copy, Debug, Default, PartialEq, Eq, Structural)]
pub struct LogicalSize {
    /// Logical width.
    pub width: u32,
    /// Logical height.
    pub height: u32,
}

impl LogicalSize {
    /// Creates a logical size.
    pub fn new(width: u32, height: u32) -> (r: LogicalSize)
        ensures
            r.width == width,
            r.height == height,
    {
        LogicalSize { width, height }
    }
}

/// `logical * numerator / denominator`, rounded to nearest with ties upward,
/// saturated at `u32::MAX`.
pub open spec fn scaled(logical: u32, numerator: u32, denominator: u32) -> int {
    let exact = (logical * numerator + denominator / 2) / (denominator as int);
    if exact > u32::MAX {
        u32::MAX as int
    } else {
        exact
    }
}

/// A deterministic rational mapping from design units to physical pixels.
///
/// `ScaleFactor::new(3, 2)` maps two logical units to three physical pixels.
/// Resolution uses round-to-nearest with ties rounded upward.
#[derive(Clone, Copy, Debug, PartialEq, Eq, Structural)]
pub struct ScaleFactor {
    numerator: u32,
    denominator: u32,
}

impl ScaleFactor {
    #[verifier::type_invariant]
    spec fn nonzero(self) -> bool {
        self.numerator != 0 && self.denominator != 0
    }

    pub closed spec fn spec_numerator(self) -> u32 {
        self.numerator
    }

    pub closed spec fn spec_denominator(self) -> u32 {
        self.denominator
    }

    /// A one-to-one mapping between logical and physical pixels.
    pub fn one() -> (r: ScaleFactor)
        ensures
            r.spec_numerator() == 1,
            r.spec_denominator() == 1,
    {
        ScaleFactor { numerator: 1, denominator: 1 }
    }

    /// Creates a non-zero rational scale.
    pub fn new(numerator: u32, denominator: u32) -> (r: Option<ScaleFactor>)
        ensures
            match r {
                Some(s) => numerator != 0 && denominator != 0 && s.spec_numerator() == numerator
                    && s.spec_denominator() == denominator,
                None => numerator == 0 || denominator == 0,
            },
    {
        if numerator == 0 || denominator == 0 {
            None
        } else {
            Some(ScaleFactor { numerator, denominator })
        }
    }

    /// Returns the scale numerator.
    pub fn numerator(self) -> (r: u32)
        ensures
            r == self.spec_numerator(),
            r != 0,
    {
        proof {
            use_type_invariant(&self);
        }
        self.numerator
    }

    /// Returns the scale denominator.
    pub fn denominator(self) -> (r: u32)
        ensures
            r == self.spec_denominator(),
            r != 0,
    {
        proof {
            use_type_invariant(&self);
        }
        self.denominator
    }

    /// Resolves one logical length to physical pixels.
    pub fn resolve(self, logical: u32) -> (r: u32)
        ensures
            r == scaled(logical, self.spec_numerator(), self.spec_denominator()),
    {
        proof {
            use_type_invariant(&self);
        }
        let n = self.numerator as u64;
        let d = self.denominator as u64;
        let l = logical as u64;
        proof {
            assert(l * n <= 0xffff_ffff * 0xffff_ffff) by (nonlinear_arith)
                requires
                    l <= 0xffff_ffff,
                    n <= 0xffff_ffff,
            ;
        }
        let rounded = (l * n + d / 2) / d;
        if rounded > u32::MAX as u64 {
            u32::MAX
        } else {
            rounded as u32
        }
    }

    /// Resolves a logical size to physical pixels.
    pub fn resolve_size(self, logical: LogicalSize) -> (r: Size)
        ensures
            r.width == scaled(logical.width, self.spec_numerator(), self.spec_denominator()),
            r.height == scaled(logical.height, self.spec_numerator(), self.spec_denominator()),
    {
        Size::new(self.resolve(logical.width), self.resolve(logical.height))
    }
}

/// An invalid layout input.
#[derive(Clone, Copy, Debug, PartialEq, Eq, Structural)]
pub enum LayoutError {
    /// At least one minimum dimension is greater than its maximum.
    InvalidConstraints {
        /// Requested minimum dimensions.
        min: Size,
        /// Requested maximum dimensions.
        max: Size,
    },
}

/// `value` clamped into `[low, high]`.
pub open spec fn clamp(value: u32, low: u32, high: u32) -> u32 {
    if value < low {
        low
    } else if value > high {
        high
    } else {
        value
    }
}

/// Minimum and maximum physical dimensions accepted by a layout node.
#[derive(Clone, Copy, Debug, PartialEq, Eq, Structural)]
pub struct Constraints {
    min: Size,
    max: Size,
}

impl Constraints {
    #[verifier::type_invariant]
    spec fn ordered(self) -> bool {
        self.min.width <= self.max.width && self.min.height <= self.max.height
    }

    pub closed spec fn spec_min(self) -> Size {
        self.min
    }

    pub closed spec fn spec_max(self) -> Size {
        self.max
    }

    /// Creates validated constraints.
    pub fn new(min: Size, max: Size) -> (r: Result<Constraints, LayoutError>)
        ensures
            match r {
                Ok(c) => min.width <= max.width && min.height <= max.height && c.spec_min() == min
                    && c.spec_max() == max,
                Err(e) => (min.width > max.width || min.height > max.height) && e
                    == LayoutError::InvalidConstraints { min, max },
            },
    {
        if min.width > max.width || min.height > max.height {
            Err(LayoutError::InvalidConstraints { min, max })
        } else {
            Ok(Constraints { min, max })
        }
    }

    /// Creates constraints requiring exactly `size`.
    pub fn tight(size: Size) -> (r: Constraints)
        ensures
            r.spec_min() == size,
            r.spec_max() == size,
    {
        Constraints { min: size, max: size }
    }

    /// Creates constraints from zero through `max`.
    pub fn loose(max: Size) -> (r: Constraints)
        ensures
            r.spec_min() == (Size { width: 0, height: 0 }),
            r.spec_max() == max,
    {
        Constraints { min: Size::new(0, 0), max }
    }

    /// Returns the minimum size.
    pub fn min(self) -> (r: Size)
        ensures
            r == self.spec_min(),
    {
        self.min
    }

    /// Returns the maximum size.
    pub fn max(self) -> (r: Size)
        ensures
            r == self.spec_max(),
    {
        self.max
    }

    /// Clamps a size to these validated constraints.
    pub fn constrain(self, size: Size) -> (r: Size)
        ensures
            r.width == clamp(size.width, self.spec_min().width, self.spec_max().width),
            r.height == clamp(size.height, self.spec_min().height, self.spec_max().height),
            self.spec_min().width <= r.width <= self.spec_max().width,
            self.spec_min().height <= r.height <= self.spec_max().height,
    {
        proof {
            use_type_invariant(&self);
        }
        let width = if size.width < self.min.width {
            self.min.width
        } else if size.width > self.max.width {
            self.max.width
        } else {
            size.width
        };
        let height = if size.height < self.min.height {
            self.min.height
        } else if size.height > self.max.height {
            self.max.height
        } else {
            size.height
        };
        Size::new(width, height)
    }
}

/// The main direction of a linear layout.
#[derive(Clone, Copy, Debug, PartialEq, Eq, Structural)]
pub enum Axis {
    /// Place items from left to right.
    Horizontal,
    /// Place items from top to bottom.
    Vertical,
}

/// Placement on the axis perpendicular to the main direction.
#[derive(Clone, Copy, Debug, PartialEq, Eq, Structural)]
pub enum CrossAlignment {
    /// Align with the leading cross-axis edge.
    Start,
    /// Center within the available cross-axis space.
    Center,
    /// Align with the trailing cross-axis edge.
    End,
    /// Fill the available cross-axis space.
    Stretch,
}

/// One child in a linear layout.
#[derive(Clone, Copy, Debug, PartialEq, Eq, Structural)]
pub struct LinearItem {
    /// Preferred resolved size before growth or shrinkage.
    pub natural_size: Size,
    /// Relative share of remaining main-axis space.
    pub grow: u16,
}

pub open spec fn spec_main_size(axis: Axis, size: Size) -> u32 {
    match axis {
        Axis::Horizontal => size.width,
        Axis::Vertical => size.height,
    }
}

pub open spec fn spec_main_origin(axis: Axis, bounds: Rect) -> u32 {
    match axis {
        Axis::Horizontal => bounds.origin.x,
        Axis::Vertical => bounds.origin.y,
    }
}

/// The saturated end of a rectangle along the main axis.
pub open spec fn spec_main_end(axis: Axis, r: Rect) -> u32 {
    match axis {
        Axis::Horizontal => r.spec_right(),
        Axis::Vertical => r.spec_bottom(),
    }
}

/// `x` capped at `u32::MAX`.
pub open spec fn cap32(x: int) -> int {
    if x > u32::MAX {
        u32::MAX as int
    } else {
        x
    }
}

/// `x` capped at `u64::MAX`.
pub open spec fn cap64(x: int) -> int {
    if x > u64::MAX {
        u64::MAX as int
    } else {
        x
    }
}

/// `a - b`, or zero when `b > a`.
pub open spec fn monus(a: int, b: int) -> int {
    if a >= b {
        a - b
    } else {
        0
    }
}

/// The part of `remaining` that `weight` claims out of `remaining_weight`,
/// rounded down.
pub open spec fn share(remaining: int, weight: int, remaining_weight: int) -> int {
    if weight == 0 || remaining_weight == 0 {
        0
    } else {
        cap32(remaining * weight / remaining_weight)
    }
}

/// The `u64`-saturated sum of the main sizes of the first `k` items.
pub open spec fn natural_sum(axis: Axis, items: Seq<LinearItem>, k: int) -> int
    decreases k,
{
    if k <= 0 {
        0
    } else {
        cap64(natural_sum(axis, items, k - 1) + spec_main_size(axis, items[k - 1].natural_size))
    }
}

/// The `u64`-saturated sum of the grow weights of the first `k` items.
pub open spec fn grow_sum(items: Seq<LinearItem>, k: int) -> int
    decreases k,
{
    if k <= 0 {
        0
    } else {
        cap64(grow_sum(items, k - 1) + items[k - 1].grow)
    }
}

/// What is still to be distributed after some items have been placed.
pub struct Allocation {
    pub space: int,
    pub natural: int,
    pub extra: int,
    pub grow: int,
    pub gap_space: int,
    pub gaps: int,
    pub cursor: int,
}

/// The fixed inputs of one layout pass, derived from its arguments.
pub struct LayoutFrame {
    pub count: int,
    pub item_space: int,
    pub total_gaps: int,
    pub gap_count: int,
    pub natural_total: int,
    pub grow_total: int,
    pub shrinking: bool,
}

pub open spec fn layout_frame(axis: Axis, bounds: Rect, gap: u32, items: Seq<LinearItem>, count: int) -> LayoutFrame {
    let available = spec_main_size(axis, bounds.size) as int;
    let gap_count = cap32(count - 1);
    let total_gaps = min_u32(cap32(gap * gap_count) as u32, available as u32) as int;
    let item_space = available - total_gaps;
    let natural_total = natural_sum(axis, items, count);
    LayoutFrame {
        count,
        item_space,
        total_gaps,
        gap_count,
        natural_total,
        grow_total: grow_sum(items, count),
        shrinking: natural_total > item_space,
    }
}

/// The main-axis size given to `item` from allocation state `a`.
pub open spec fn main_share(f: LayoutFrame, a: Allocation, axis: Axis, item: LinearItem) -> int {
    let natural = spec_main_size(axis, item.natural_size) as int;
    if f.shrinking {
        share(a.space, natural, a.natural)
    } else if f.grow_total > 0 {
        cap32(natural + share(cap32(a.extra), item.grow as int, a.grow))
    } else {
        natural
    }
}

/// The allocation state after placing `item`, the `index`-th of `f.count`.
pub open spec fn advance(f: LayoutFrame, a: Allocation, axis: Axis, item: LinearItem, index: int) -> Allocation {
    let natural = spec_main_size(axis, item.natural_size) as int;
    let main = main_share(f, a, axis, item);
    let cursor = cap32(a.cursor + main);
    let a1 = if f.shrinking {
        Allocation { space: monus(a.space, main), natural: monus(a.natural, natural), cursor, ..a }
    } else if f.grow_total > 0 {
        Allocation {
            extra: monus(a.extra, monus(main, natural)),
            grow: monus(a.grow, item.grow as int),
            cursor,
            ..a
        }
    } else {
        Allocation { cursor, ..a }
    };
    if index + 1 < f.count {
        let g = share(a1.gap_space, 1, a1.gaps);
        Allocation {
            cursor: cap32(a1.cursor + g),
            gap_space: monus(a1.gap_space, g),
            gaps: monus(a1.gaps, 1),
            ..a1
        }
    } else {
        a1
    }
}

pub open spec fn initial_allocation(f: LayoutFrame, axis: Axis, bounds: Rect) -> Allocation {
    Allocation {
        space: f.item_space,
        natural: f.natural_total,
        extra: monus(f.item_space, f.natural_total),
        grow: f.grow_total,
        gap_space: f.total_gaps,
        gaps: f.gap_count,
        cursor: spec_main_origin(axis, bounds) as int,
    }
}

/// The allocation state after the first `k` items have been placed.
pub open spec fn allocation_after(axis: Axis, bounds: Rect, gap: u32, items: Seq<LinearItem>, count: int, k: int) -> Allocation
    decreases k,
{
    let f = layout_frame(axis, bounds, gap, items, count);
    if k <= 0 {
        initial_allocation(f, axis, bounds)
    } else {
        advance(f, allocation_after(axis, bounds, gap, items, count, k - 1), axis, items[k - 1], k - 1)
    }
}

/// Cross-axis origin and size for one item.
pub open spec fn spec_align_cross(origin: u32, available: u32, natural: u32, alignment: CrossAlignment) -> (u32, u32) {
    let size = if alignment == CrossAlignment::Stretch {
        available
    } else {
        min_u32(natural, available)
    };
    let free = (available - size) as u32;
    let offset: u32 = match alignment {
        CrossAlignment::Start | CrossAlignment::Stretch => 0,
        CrossAlignment::Center => free / 2,
        CrossAlignment::End => free,
    };
    (sat_add(origin, offset), size)
}

pub open spec fn spec_place_item(axis: Axis, bounds: Rect, cursor: u32, main: u32, natural: Size, alignment: CrossAlignment) -> Rect {
    match axis {
        Axis::Horizontal => {
            let (o, s) = spec_align_cross(bounds.origin.y, bounds.size.height, natural.height, alignment);
            rect(cursor, o, main, s)
        },
        Axis::Vertical => {
            let (o, s) = spec_align_cross(bounds.origin.x, bounds.size.width, natural.width, alignment);
            rect(o, cursor, s, main)
        },
    }
}

/// The rectangle given to the `i`-th item.
pub open spec fn placed(axis: Axis, bounds: Rect, gap: u32, alignment: CrossAlignment, items: Seq<LinearItem>, count: int, i: int) -> Rect {
    let f = layout_frame(axis, bounds, gap, items, count);
    let a = allocation_after(axis, bounds, gap, items, count, i);
    spec_place_item(
        axis,
        bounds,
        a.cursor as u32,
        main_share(f, a, axis, items[i]) as u32,
        items[i].natural_size,
        alignment,
    )
}

fn main_size(axis: Axis, size: Size) -> (r: u32)
    ensures
        r == spec_main_size(axis, size),
{
    match axis {
        Axis::Horizontal => size.width,
        Axis::Vertical => size.height,
    }
}

fn main_origin(axis: Axis, bounds: Rect) -> (r: u32)
    ensures
        r == spec_main_origin(axis, bounds),
{
    match axis {
        Axis::Horizontal => bounds.origin.x,
        Axis::Vertical => bounds.origin.y,
    }
}

fn proportional_share(remaining: u32, weight: u64, remaining_weight: u64) -> (r: u32)
    requires
        weight <= u32::MAX,
    ensures
        r == share(remaining as int, weight as int, remaining_weight as int),
{
    if weight == 0 || remaining_weight == 0 {
        return 0;
    }
    proof {
        assert(remaining * weight <= 0xffff_ffff * 0xffff_ffff) by (nonlinear_arith)
            requires
                remaining <= 0xffff_ffff,
                weight <= 0xffff_ffff,
        ;
    }
    let share = (remaining as u64 * weight) / remaining_weight;
    if share > u32::MAX as u64 {
        u32::MAX
    } else {
        share as u32
    }
}

fn align_cross(origin: u32, available: u32, natural: u32, alignment: CrossAlignment) -> (r: (u32, u32))
    ensures
        r == spec_align_cross(origin, available, natural, alignment),
{
    let size = if alignment == CrossAlignment::Stretch {
        available
    } else if natural <= available {
        natural
    } else {
        available
    };
    let free = available - size;
    let offset = match alignment {
        CrossAlignment::Start | CrossAlignment::Stretch => 0,
        CrossAlignment::Center => free / 2,
        CrossAlignment::End => free,
    };
    (origin.saturating_add(offset), size)
}

fn place_item(axis: Axis, bounds: Rect, cursor: u32, main: u32, natural: Size, alignment: CrossAlignment) -> (r: Rect)
    ensures
        r == spec_place_item(axis, bounds, cursor, main, natural, alignment),
{
    match axis {
        Axis::Horizontal => {
            let (o, s) = align_cross(bounds.origin.y, bounds.size.height, natural.height, alignment);
            Rect::new(cursor, o, main, s)
        },
        Axis::Vertical => {
            let (o, s) = align_cross(bounds.origin.x, bounds.size.width, natural.width, alignment);
            Rect::new(o, cursor, s, main)
        },
    }
}

/// Deterministically lays out a row or column into caller-provided storage.
///
/// The function returns how many items were written: the shorter of the two
/// slices. When preferred item sizes overflow the bounds, items shrink
/// proportionally after gaps are allocated. When growing items divide extra
/// space unevenly, deterministic remainder distribution ensures every
/// available pixel is assigned. Entries of `output` past the count are left
/// untouched.
pub fn linear_layout(
    axis: Axis,
    bounds: Rect,
    gap: u32,
    alignment: CrossAlignment,
    items: &[LinearItem],
    output: &mut [Rect],
) -> (r: usize)
    ensures
        r == (if items@.len() <= old(output)@.len() {
            items@.len()
        } else {
            old(output)@.len()
        }),
        final(output)@.len() == old(output)@.len(),
        forall|i: int|
            0 <= i < r ==> #[trigger] final(output)@[i] == placed(axis, bounds, gap, alignment, items@, r as int, i),
        forall|i: int| r <= i < old(output)@.len() ==> #[trigger] final(output)@[i] == old(output)@[i],
{
    let count = if items.len() <= output.len() {
        items.len()
    } else {
        output.len()
    };
    if count == 0 {
        return 0;
    }
    let ghost f = layout_frame(axis, bounds, gap, items@, count as int);
    let available_main = main_size(axis, bounds.size);
    let gap_count: u32 = if count - 1 > u32::MAX as usize {
        u32::MAX
    } else {
        (count - 1) as u32
    };
    let requested_gaps = match gap.checked_mul(gap_count) {
        Some(total) => total,
        None => u32::MAX,
    };
    let total_gaps = crate::display::min32(requested_gaps, available_main);
    let item_space = available_main - total_gaps;

    let mut natural_total: u64 = 0;
    let mut grow_total: u64 = 0;
    let mut k: usize = 0;
    while k < count
        invariant
            count <= items@.len(),
            0 <= k <= count,
            natural_total == natural_sum(axis, items@, k as int),
            grow_total == grow_sum(items@, k as int),
        decreases count - k,
    {
        natural_total = natural_total.saturating_add(main_size(axis, items[k].natural_size) as u64);
        grow_total = grow_total.saturating_add(items[k].grow as u64);
        k = k + 1;
    }
    let shrinking = natural_total > item_space as u64;
    assert(f.item_space == item_space && f.total_gaps == total_gaps && f.gap_count == gap_count
        && f.natural_total == natural_total && f.grow_total == grow_total && f.shrinking == shrinking);

    let mut remaining_item_space = item_space;
    let mut remaining_natural = natural_total;
    let mut remaining_extra: u64 = if natural_total <= item_space as u64 {
        item_space as u64 - natural_total
    } else {
        0
    };
    let mut remaining_grow = grow_total;
    let mut remaining_gap_space = total_gaps;
    let mut remaining_gaps = gap_count;
    let mut cursor = main_origin(axis, bounds);

    let mut index: usize = 0;
    while index < count
        invariant
            count <= items@.len(),
            count <= output@.len(),
            output@.len() == old(output)@.len(),
            count == (if items@.len() <= old(output)@.len() {
                items@.len()
            } else {
                old(output)@.len()
            }),
            f == layout_frame(axis, bounds, gap, items@, count as int),
            f.shrinking == shrinking,
            f.grow_total == grow_total,
            0 <= index <= count,
            ({
                let a = allocation_after(axis, bounds, gap, items@, count as int, index as int);
                &&& a.space == remaining_item_space
                &&& a.natural == remaining_natural
                &&& a.extra == remaining_extra
                &&& a.grow == remaining_grow
                &&& a.gap_space == remaining_gap_space
                &&& a.gaps == remaining_gaps
                &&& a.cursor == cursor
            }),
            forall|i: int|
                0 <= i < index ==> #[trigger] output@[i] == placed(axis, bounds, gap, alignment, items@, count as int, i),
            forall|i: int| count <= i < output@.len() ==> #[trigger] output@[i] == old(output)@[i],
        decreases count - index,
    {
        let item = items[index];
        let natural = main_size(axis, item.natural_size);
        let main = if shrinking {
            proportional_share(remaining_item_space, natural as u64, remaining_natural)
        } else if grow_total > 0 {
            let extra_space: u32 = if remaining_extra > u32::MAX as u64 {
                u32::MAX
            } else {
                remaining_extra as u32
            };
            natural.saturating_add(proportional_share(extra_space, item.grow as u64, remaining_grow))
        } else {
            natural
        };
        let ghost a = allocation_after(axis, bounds, gap, items@, count as int, index as int);
        assert(main == main_share(f, a, axis, item));

        output[index] = place_item(axis, bounds, cursor, main, item.natural_size, alignment);
        cursor = cursor.saturating_add(main);

        if shrinking {
            remaining_item_space = remaining_item_space.saturating_sub(main);
            remaining_natural = remaining_natural.saturating_sub(natural as u64);
        } else if grow_total > 0 {
            let allocated_extra = main.saturating_sub(natural);
            remaining_extra = remaining_extra.saturating_sub(allocated_extra as u64);
            remaining_grow = remaining_grow.saturating_sub(item.grow as u64);
        }

        if index + 1 < count {
            let item_gap = proportional_share(remaining_gap_space, 1, remaining_gaps as u64);
            cursor = cursor.saturating_add(item_gap);
            remaining_gap_space = remaining_gap_space.saturating_sub(item_gap);
            remaining_gaps = remaining_gaps.saturating_sub(1);
        }
        index = index + 1;
    }
    count
}

proof fn lemma_sums_exact(axis: Axis, items: Seq<LinearItem>, k: int)
    requires
        0 <= k <= u32::MAX as int + 1,
    ensures
        0 <= natural_sum(axis, items, k) <= k * 0xffff_ffff,
        0 <= grow_sum(items, k) <= k * 0xffff,
        k > 0 ==> natural_sum(axis, items, k) == natural_sum(axis, items, k - 1) + spec_main_size(
            axis,
            items[k - 1].natural_size,
        ),
        k > 0 ==> grow_sum(items, k) == grow_sum(items, k - 1) + items[k - 1].grow,
    decreases k,
{
    if k > 0 {
        lemma_sums_exact(axis, items, k - 1);
        assert(k * 0xffff_ffff <= 0x1_0000_0000 * 0xffff_ffff) by (nonlinear_arith)
            requires
                k <= 0x1_0000_0000,
        ;
        assert((k - 1) * 0xffff_ffff + 0xffff_ffff == k * 0xffff_ffff) by (nonlinear_arith);
        assert((k - 1) * 0xffff + 0xffff == k * 0xffff) by (nonlinear_arith);
    }
}

proof fn lemma_share_bounded(space: int, weight: int, total: int)
    requires
        0 <= space <= u32::MAX,
        0 <= weight <= total,
    ensures
        0 <= share(space, weight, total) <= space,
        weight == total && total > 0 ==> share(space, weight, total) == space,
{
    if weight != 0 && total != 0 {
        assert(space * weight / total <= space && 0 <= space * weight / total) by (nonlinear_arith)
            requires
                0 <= space,
                0 <= weight <= total,
                total > 0,
        ;
        if weight == total {
            assert(space * weight / total == space) by (nonlinear_arith)
                requires
                    weight == total,
                    total > 0,
            ;
        }
    }
}

/// The main-axis pixels already handed to the first `k` items.
pub open spec fn main_used(f: LayoutFrame, a: Allocation, axis: Axis, items: Seq<LinearItem>, k: int) -> int {
    if f.shrinking {
        f.item_space - a.space
    } else if f.grow_total > 0 {
        natural_sum(axis, items, k) + (f.item_space - f.natural_total - a.extra)
    } else {
        natural_sum(axis, items, k)
    }
}

/// What stays true of the allocation state while items are placed, when
/// the totals are exact.
pub open spec fn allocation_inv(f: LayoutFrame, a: Allocation, axis: Axis, items: Seq<LinearItem>, origin: int, k: int) -> bool {
    let used = main_used(f, a, axis, items, k);
    let gaps_used = f.total_gaps - a.gap_space;
    &&& a.gaps == f.gap_count - (if k < f.count { k } else { f.count - 1 })
    &&& 0 <= a.gap_space <= f.total_gaps
    &&& a.gaps == 0 ==> a.gap_space == 0
    &&& f.shrinking ==> {
        &&& a.natural == f.natural_total - natural_sum(axis, items, k)
        &&& 0 <= a.space <= f.item_space
        &&& a.natural == 0 ==> a.space == 0
    }
    &&& !f.shrinking && f.grow_total > 0 ==> {
        &&& a.grow == f.grow_total - grow_sum(items, k)
        &&& 0 <= a.extra <= f.item_space - f.natural_total
        &&& a.grow == 0 ==> a.extra == 0
    }
    &&& 0 <= used <= f.item_space
    &&& a.cursor == cap32(origin + used + gaps_used)
}

proof fn lemma_allocation_inv(axis: Axis, bounds: Rect, gap: u32, items: Seq<LinearItem>, count: int, k: int)
    requires
        1 <= count <= items.len(),
        count <= u32::MAX,
        0 <= k <= count,
    ensures
        allocation_inv(
            layout_frame(axis, bounds, gap, items, count),
            allocation_after(axis, bounds, gap, items, count, k),
            axis,
            items,
            spec_main_origin(axis, bounds) as int,
            k,
        ),
        k > 0 ==> ({
            let f = layout_frame(axis, bounds, gap, items, count);
            let prev = allocation_after(axis, bounds, gap, items, count, k - 1);
            let next = allocation_after(axis, bounds, gap, items, count, k);
            let main = main_share(f, prev, axis, items[k - 1]);
            &&& 0 <= main <= f.item_space
            &&& main_used(f, next, axis, items, k) == main_used(f, prev, axis, items, k - 1) + main
            &&& next.gap_space <= prev.gap_space
            &&& k == count ==> next.gap_space == prev.gap_space
        }),
    decreases k,
{
    let f = layout_frame(axis, bounds, gap, items, count);
    let o = spec_main_origin(axis, bounds) as int;
    lemma_sums_exact(axis, items, count);
    lemma_sums_exact(axis, items, k);
    lemma_natural_prefix(axis, items, k, count);
    if count == 1 {
        assert(f.gap_count == 0);
        assert(gap * f.gap_count == 0) by (nonlinear_arith)
            requires
                f.gap_count == 0,
        ;
        assert(f.total_gaps == 0);
    }
    if k == 0 {
        assert(f.gap_count == count - 1);
    } else {
        lemma_allocation_inv(axis, bounds, gap, items, count, k - 1);
        let a = allocation_after(axis, bounds, gap, items, count, k - 1);
        let item = items[k - 1];
        let natural = spec_main_size(axis, item.natural_size) as int;
        let main = main_share(f, a, axis, item);
        if f.shrinking {
            lemma_natural_prefix(axis, items, k - 1, count);
            lemma_share_bounded(a.space, natural, a.natural);
        } else if f.grow_total > 0 {
            lemma_grow_prefix(items, k - 1, count);
            lemma_share_bounded(cap32(a.extra), item.grow as int, a.grow);
            lemma_natural_prefix(axis, items, k - 1, count);
        }
        let a1_used = main_used(f, a, axis, items, k - 1) + main;
        assert(cap32(a.cursor + main) == cap32(o + a1_used + (f.total_gaps - a.gap_space)));
        if k < count {
            let gaps1 = a.gaps;
            lemma_share_bounded(a.gap_space, 1, gaps1);
        }
    }
}

proof fn lemma_natural_prefix(axis: Axis, items: Seq<LinearItem>, k: int, count: int)
    requires
        0 <= k <= count <= u32::MAX as int + 1,
    ensures
        natural_sum(axis, items, k) <= natural_sum(axis, items, count),
        k < count ==> natural_sum(axis, items, k) + spec_main_size(axis, items[k].natural_size)
            <= natural_sum(axis, items, count),
    decreases count - k,
{
    lemma_sums_exact(axis, items, count);
    if k < count {
        lemma_natural_prefix(axis, items, k + 1, count);
        lemma_sums_exact(axis, items, k + 1);
    }
}

proof fn lemma_grow_prefix(items: Seq<LinearItem>, k: int, count: int)
    requires
        0 <= k <= count <= u32::MAX as int + 1,
    ensures
        grow_sum(items, k) <= grow_sum(items, count),
        k < count ==> grow_sum(items, k) + items[k].grow <= grow_sum(items, count),
    decreases count - k,
{
    lemma_sums_exact(Axis::Horizontal, items, count);
    if k < count {
        lemma_grow_prefix(items, k + 1, count);
        lemma_sums_exact(Axis::Horizontal, items, k + 1);
    }
}

pub open spec fn spec_main_start(axis: Axis, r: Rect) -> u32 {
    match axis {
        Axis::Horizontal => r.origin.x,
        Axis::Vertical => r.origin.y,
    }
}

proof fn lemma_placed_extent(axis: Axis, bounds: Rect, gap: u32, alignment: CrossAlignment, items: Seq<LinearItem>, count: int, i: int)
    requires
        1 <= count <= items.len(),
        count <= u32::MAX,
        0 <= i < count,
    ensures
        ({
            let f = layout_frame(axis, bounds, gap, items, count);
            let o = spec_main_origin(axis, bounds) as int;
            let a = allocation_after(axis, bounds, gap, items, count, i);
            let b = allocation_after(axis, bounds, gap, items, count, i + 1);
            let r = placed(axis, bounds, gap, alignment, items, count, i);
            &&& spec_main_start(axis, r) == cap32(o + main_used(f, a, axis, items, i) + (f.total_gaps - a.gap_space))
            &&& spec_main_end(axis, r) == cap32(o + main_used(f, b, axis, items, i + 1) + (f.total_gaps - a.gap_space))
            &&& spec_main_start(axis, r) >= o
        }),
{
    lemma_allocation_inv(axis, bounds, gap, items, count, i);
    lemma_allocation_inv(axis, bounds, gap, items, count, i + 1);
}

/// When the natural sizes fit, growth only adds: every item gets at least
/// its natural main-axis size, and an item that does not grow gets exactly
/// its natural size.
pub proof fn lemma_layout_growth_only_adds(
    axis: Axis,
    bounds: Rect,
    gap: u32,
    alignment: CrossAlignment,
    items: Seq<LinearItem>,
    count: int,
    i: int,
)
    requires
        1 <= count <= items.len(),
        count <= u32::MAX,
        0 <= i < count,
        !layout_frame(axis, bounds, gap, items, count).shrinking,
    ensures
        spec_main_size(axis, placed(axis, bounds, gap, alignment, items, count, i).size) >= spec_main_size(
            axis,
            items[i].natural_size,
        ),
        items[i].grow == 0 ==> spec_main_size(axis, placed(axis, bounds, gap, alignment, items, count, i).size)
            == spec_main_size(axis, items[i].natural_size),
{
    let f = layout_frame(axis, bounds, gap, items, count);
    let a = allocation_after(axis, bounds, gap, items, count, i);
    lemma_allocation_inv(axis, bounds, gap, items, count, i);
    if f.grow_total > 0 && items[i].grow != 0 && a.grow != 0 {
        let remaining = cap32(a.extra);
        let weight = items[i].grow as int;
        assert(remaining * weight / a.grow >= 0) by (nonlinear_arith)
            requires
                remaining >= 0,
                weight >= 0,
                a.grow > 0,
        ;
    }
}

/// Where a rectangle starts on the cross axis of `axis`.
pub open spec fn cross_start(axis: Axis, r: Rect) -> int {
    match axis {
        Axis::Horizontal => r.origin.y as int,
        Axis::Vertical => r.origin.x as int,
    }
}

/// A rectangle's extent on the cross axis of `axis`.
pub open spec fn cross_extent(axis: Axis, size: Size) -> int {
    match axis {
        Axis::Horizontal => size.height as int,
        Axis::Vertical => size.width as int,
    }
}

/// Cross-axis placement: a stretched item spans the bounds; any other item
/// keeps its natural cross size, cut to the bounds. A start-aligned or
/// stretched item starts at the bounds' leading edge, an end-aligned one
/// ends at their trailing edge, and a centered one leaves equal margins,
/// the trailing one larger by at most one pixel.
pub proof fn lemma_layout_cross_alignment(
    axis: Axis,
    bounds: Rect,
    gap: u32,
    alignment: CrossAlignment,
    items: Seq<LinearItem>,
    count: int,
    i: int,
)
    requires
        0 <= i < count <= items.len(),
        cross_start(axis, bounds) + cross_extent(axis, bounds.size) <= u32::MAX,
    ensures
        ({
            let p = placed(axis, bounds, gap, alignment, items, count, i);
            let available = cross_extent(axis, bounds.size);
            let natural = cross_extent(axis, items[i].natural_size);
            let lead = cross_start(axis, p) - cross_start(axis, bounds);
            let trail = cross_start(axis, bounds) + available - (cross_start(axis, p) + cross_extent(axis, p.size));
            &&& cross_extent(axis, p.size) == (if alignment == CrossAlignment::Stretch || natural > available {
                available
            } else {
                natural
            })
            &&& (alignment == CrossAlignment::Start || alignment == CrossAlignment::Stretch) ==> lead == 0
            &&& alignment == CrossAlignment::End ==> trail == 0
            &&& alignment == CrossAlignment::Center ==> lead <= trail <= lead + 1
        }),
{
}

/// Every placed item starts at or after the layout origin and ends within
/// the bounds along the main axis.
pub proof fn lemma_layout_within_bounds(
    axis: Axis,
    bounds: Rect,
    gap: u32,
    alignment: CrossAlignment,
    items: Seq<LinearItem>,
    count: int,
    i: int,
)
    requires
        1 <= count <= items.len(),
        count <= u32::MAX,
        0 <= i < count,
    ensures
        spec_main_start(axis, placed(axis, bounds, gap, alignment, items, count, i)) >= spec_main_origin(axis, bounds),
        spec_main_end(axis, placed(axis, bounds, gap, alignment, items, count, i)) <= spec_main_end(axis, bounds),
{
    lemma_placed_extent(axis, bounds, gap, alignment, items, count, i);
    lemma_allocation_inv(axis, bounds, gap, items, count, i + 1);
}

/// Items follow one another along the main axis without overlapping.
pub proof fn lemma_layout_in_order(
    axis: Axis,
    bounds: Rect,
    gap: u32,
    alignment: CrossAlignment,
    items: Seq<LinearItem>,
    count: int,
    i: int,
)
    requires
        1 <= count <= items.len(),
        count <= u32::MAX,
        0 <= i,
        i + 1 < count,
    ensures
        spec_main_end(axis, placed(axis, bounds, gap, alignment, items, count, i)) <= spec_main_start(
            axis,
            placed(axis, bounds, gap, alignment, items, count, i + 1),
        ),
{
    lemma_placed_extent(axis, bounds, gap, alignment, items, count, i);
    lemma_placed_extent(axis, bounds, gap, alignment, items, count, i + 1);
    lemma_allocation_inv(axis, bounds, gap, items, count, i + 1);
}

/// When items must shrink, or some item grows, the last item ends exactly
/// at the end of the bounds: every available pixel is assigned.
pub proof fn lemma_layout_fills_bounds(
    axis: Axis,
    bounds: Rect,
    gap: u32,
    alignment: CrossAlignment,
    items: Seq<LinearItem>,
    count: int,
)
    requires
        1 <= count <= items.len(),
        count <= u32::MAX,
        layout_frame(axis, bounds, gap, items, count).shrinking || grow_sum(items, count) > 0,
    ensures
        spec_main_end(axis, placed(axis, bounds, gap, alignment, items, count, count - 1)) == spec_main_end(
            axis,
            bounds,
        ),
{
    lemma_placed_extent(axis, bounds, gap, alignment, items, count, count - 1);
    lemma_allocation_inv(axis, bounds, gap, items, count, count);
    lemma_sums_exact(axis, items, count);
}

/// When the natural sizes fit and nothing grows, every item keeps its
/// natural main-axis size.
pub proof fn lemma_layout_keeps_natural_sizes(
    axis: Axis,
    bounds: Rect,
    gap: u32,
    alignment: CrossAlignment,
    items: Seq<LinearItem>,
    count: int,
    i: int,
)
    requires
        1 <= count <= items.len(),
        0 <= i < count,
        !layout_frame(axis, bounds, gap, items, count).shrinking,
        grow_sum(items, count) == 0,
    ensures
        spec_main_end(axis, placed(axis, bounds, gap, alignment, items, count, i)) == sat_add(
            spec_main_start(axis, placed(axis, bounds, gap, alignment, items, count, i)),
            spec_main_size(axis, items[i].natural_size),
        ),
{
}

} // verus!
