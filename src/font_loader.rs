use vstd::prelude::*;

verus! {

/// A font resource could not be read or decoded.
#[derive(Clone, Copy, Debug, PartialEq, Eq, Structural)]
pub struct FontLoaderError;

impl FontLoaderError {
    /// Text describing the error.
    pub fn message(&self) -> (r: &'static str)
        ensures
            r@ == "unable to load font"@,
    {
        "unable to load font"
    }
}

/// Loader of TrueType font resources.
#[derive(Clone, Copy, Debug, PartialEq, Eq, Structural)]
pub struct FontLoader;

impl FontLoader {
    /// File extensions this loader accepts.
    pub fn extensions(&self) -> (r: Vec<&'static str>)
        ensures
            r@.len() == 1,
            r@[0]@ == "ttf"@,
    {
        let mut v: Vec<&'static str> = Vec::new();
        v.push("ttf");
        v
    }
}

impl Default for FontLoader {
    fn default() -> (r: FontLoader)
        ensures
            r == FontLoader,
    {
        FontLoader
    }
}

} // verus!
