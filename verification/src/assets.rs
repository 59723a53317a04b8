//! Stable asset identifiers and image metadata.

use vstd::prelude::*;

use crate::display::Size;

verus! {

/// A stable application-facing asset identifier.
#[derive(Clone, Debug, PartialEq, Eq, Hash)]
pub struct AssetId(String);

impl View for AssetId {
    type V = Seq<char>;

    closed spec fn view(&self) -> Seq<char> {
        self.0@
    }
}

impl AssetId {
    /// Creates an identifier from a human-readable stable string.
    pub fn new(id: &str) -> (r: AssetId)
        ensures
            r@ == id@,
    {
        AssetId(id.to_owned())
    }

    /// Returns the identifier text.
    pub fn as_str(&self) -> (r: &str)
        ensures
            r@ == self@,
    {
        self.0.as_str()
    }
}

/// Encoded raster image format.
#[derive(Clone, Copy, Debug, PartialEq, Eq, Structural)]
pub enum ImageFormat {
    /// Portable Network Graphics.
    Png,
    /// Joint Photographic Experts Group.
    Jpeg,
    /// Windows bitmap.
    Bmp,
}

/// Identity and decoded dimensions of one image asset.
#[derive(Clone, Debug, PartialEq, Eq)]
pub struct ImageMetadata {
    /// Stable asset identifier.
    pub id: AssetId,
    /// Native encoded pixel dimensions.
    pub size: Size,
    /// Encoded file format.
    pub format: ImageFormat,
}

} // verus!
