//! Application-facing render context.

use vstd::prelude::*;

use crate::display::Size;

verus! {

/// What an application needs to know to render one page.
pub struct Context {
    pub viewport: Size,
}

} // verus!
