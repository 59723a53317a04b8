//! The placeholder daily page rendered for the desktop preview.

use vstd::prelude::*;
use crate::display::{Rect, Size, rect};
use crate::graphics::{Framebuffer, GraphicsError, Gray8, fill, stroke};

verus! {

/// The reference panel of the daily preview.
pub open spec fn daily_size() -> Size {
    Size { width: 1448, height: 1072 }
}

/// The placeholder page: a black rule, two framed panels, and two gray
/// text bars, painted in that order over white.
pub open spec fn placeholder_pixels() -> Seq<u8> {
    let w = 1448u32;
    let white = Seq::new(1448 * 1072, |i: int| 255u8);
    let a = fill(white, w, rect(64, 64, 1320, 8), 0);
    let b = stroke(a, w, rect(64, 120, 640, 360), 4, 0);
    let c = fill(b, w, rect(96, 160, 400, 40), 48);
    let d = fill(c, w, rect(96, 224, 520, 20), 150);
    stroke(d, w, rect(736, 120, 648, 824), 4, 0)
}

/// Returns the size of the daily preview panel.
pub fn display_size() -> (r: Size)
    ensures
        r == daily_size(),
{
    Size::new(1448, 1072)
}

/// Renders the deterministic placeholder page.
pub fn render_placeholder() -> (r: Result<Framebuffer, GraphicsError>)
    ensures
        r matches Ok(frame) && frame.wf() && frame.spec_size() == daily_size() && frame@ == placeholder_pixels(),
{
    let mut frame = match Framebuffer::new(display_size(), Gray8::white()) {
        Ok(frame) => frame,
        Err(e) => return Err(e),
    };
    proof {
        assert(frame@ =~= Seq::new(1448 * 1072, |i: int| 255u8));
    }
    frame.fill_rect(Rect::new(64, 64, 1320, 8), Gray8::black());
    frame.stroke_rect(Rect::new(64, 120, 640, 360), 4, Gray8::black());
    frame.fill_rect(Rect::new(96, 160, 400, 40), Gray8(48));
    frame.fill_rect(Rect::new(96, 224, 520, 20), Gray8(150));
    frame.stroke_rect(Rect::new(736, 120, 648, 824), 4, Gray8::black());
    Ok(frame)
}

} // verus!
