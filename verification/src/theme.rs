//! Colour schemes.
use vstd::prelude::*;

verus! {

/// How strongly a scheme sets its colours apart.
#[derive(Clone, Copy, Debug, PartialEq, Eq, Structural)]
pub enum Contrast {
    Standard,
    Medium,
    High,
}

impl Default for Contrast {
    fn default() -> (r: Self)
        ensures
            r == Contrast::Standard,
    {
        Contrast::Standard
    }
}

/// A light or a dark scheme, with its contrast.
#[derive(Clone, Copy, Debug, PartialEq, Eq, Structural)]
pub enum Scheme {
    Light(Contrast),
    Dark(Contrast),
}

impl Default for Scheme {
    fn default() -> (r: Self)
        ensures
            r == Scheme::Dark(Contrast::Standard),
    {
        Scheme::Dark(Contrast::Standard)
    }
}

impl Scheme {
    pub fn is_light(&self) -> (r: bool)
        ensures
            r == (*self is Light),
    {
        match self {
            Scheme::Light(_) => true,
            Scheme::Dark(_) => false,
        }
    }

    pub fn is_dark(&self) -> (r: bool)
        ensures
            r == (*self is Dark),
    {
        match self {
            Scheme::Light(_) => false,
            Scheme::Dark(_) => true,
        }
    }
}

} // verus!
