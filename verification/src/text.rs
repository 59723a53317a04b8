//! Typography vocabulary that does not depend on floating-point metrics.

use vstd::prelude::*;

verus! {

/// A font family selected by its human-readable name.
#[derive(Clone, Debug, PartialEq, Eq, Hash)]
pub struct FontFamily(String);

impl View for FontFamily {
    type V = Seq<char>;

    closed spec fn view(&self) -> Seq<char> {
        self.0@
    }
}

impl FontFamily {
    pub fn new(name: &str) -> (r: FontFamily)
        ensures
            r@ == name@,
    {
        FontFamily(name.to_owned())
    }

    pub fn as_str(&self) -> (r: &str)
        ensures
            r@ == self@,
    {
        self.0.as_str()
    }
}

#[derive(Clone, Copy, Debug, Default, PartialEq, Eq, Structural)]
pub enum FontWeight {
    Thin,
    Light,
    #[default]
    Regular,
    Medium,
    Semibold,
    Bold,
    Black,
}

#[derive(Clone, Copy, Debug, Default, PartialEq, Eq, Structural)]
pub enum TextAlignment {
    #[default]
    Start,
    Center,
    End,
    Justified,
}

#[derive(Clone, Copy, Debug, Default, PartialEq, Eq, Structural)]
pub enum TextOverflow {
    #[default]
    Clip,
    Ellipsis,
}

} // verus!
