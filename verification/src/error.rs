use vstd::prelude::*;

verus! {

/// The failure taxonomy of the search engine.
///
/// `Decode` marks a target image that could not be read, `Render` a
/// rasterization that failed, `Io` a raster that could not be written, and
/// `Config` degenerate geometry such as a window that spans no pixel.
#[derive(Clone, Copy, PartialEq, Eq, Structural, Debug)]
pub enum GeoError {
    Decode,
    Render,
    Io,
    Config,
}

impl GeoError {
    /// A short human-readable description of the failure.
    pub fn message(&self) -> (r: String)
        ensures
            self is Decode ==> r@ == "could not decode the target image"@,
            self is Render ==> r@ == "could not rasterize the shape list"@,
            self is Io ==> r@ == "could not write the raster"@,
            self is Config ==> r@ == "degenerate bounds: the window spans no pixel"@,
    {
        match self {
            GeoError::Decode => String::from_str("could not decode the target image"),
            GeoError::Render => String::from_str("could not rasterize the shape list"),
            GeoError::Io => String::from_str("could not write the raster"),
            GeoError::Config => String::from_str("degenerate bounds: the window spans no pixel"),
        }
    }
}

} // verus!
